use unirss::comps::sidebar::SidebarM;
use unirss::controls::{back_message, Controls, EditorAction, Editors, Effect, Message};
use unirss::model::{Entry, Feed, Nav, OnlineFeeds, Progress, Settings};
use unirss::pages::add_url::AddM;
use unirss::pages::artikle_list::{feed_artikles, unread_mixed, ArtikleListM};
use unirss::pages::feed_list::{artikles_unread, feeds_unread, mark_read, read_all, FeedListM, FeedRow};
use unirss::views::{SettingsButton, SettingsPage};
use unirss::pages::feed_view::FeedViewM;
use unirss::per::Imag;
use unirss::settings::{Language, PSettings, SettingsM, Them};

fn s(x: &str) -> String {
    x.to_string()
}

fn entry(id: &str, updated: Option<(i64, u32)>, body: Option<&str>) -> Entry {
    Entry {
        id: s(id),
        title: Some(format!("title {}", id)),
        updated,
        links: vec![format!("https://example.org/{}", id)],
        content: body.map(|b| Some(s(b))),
    }
}

fn feed(id: &str, entries: Vec<Entry>) -> Feed {
    Feed { id: s(id), title: Some(format!("feed {}", id)), links: vec![format!("https://{}.org/", id)], entries }
}

fn imag() -> Imag {
    Imag { id: String::new(), name: None }
}

fn no_editors() -> Editors {
    Editors { name: String::new(), url: String::new() }
}

fn controls_with(feeds: Vec<Feed>) -> Controls {
    let mut c = Controls::with_settings(PSettings::default());
    c.state.channels = Some(feeds.into_iter().map(|f| (f, imag())).collect());
    c
}

fn progress(lists: Vec<(&str, Vec<&str>)>) -> Progress {
    Progress { read: lists.into_iter().map(|(f, ids)| (s(f), ids.into_iter().map(s).collect())).collect() }
}

#[test]
fn artikles_unread_subtracts_the_read_list() {
    let f = feed("a", vec![entry("1", None, None), entry("2", None, None), entry("3", None, None)]);
    assert_eq!(artikles_unread(&progress(vec![]), &f), 3);
    assert_eq!(artikles_unread(&progress(vec![("a", vec!["1"])]), &f), 2);
    assert_eq!(artikles_unread(&progress(vec![("b", vec!["1", "2"]), ("a", vec!["1", "3"]), ("a", vec![])]), &f), 1);
}

#[test]
fn feeds_unread_counts_feeds_with_unread_articles() {
    let feeds = vec![
        (feed("a", vec![entry("1", None, None)]), imag()),
        (feed("b", vec![entry("2", None, None)]), imag()),
        (feed("c", vec![]), imag()),
    ];
    assert_eq!(feeds_unread(&progress(vec![]), &feeds), 2);
    assert_eq!(feeds_unread(&progress(vec![("a", vec!["1"])]), &feeds), 1);
    assert_eq!(feeds_unread(&progress(vec![("a", vec!["1"]), ("b", vec!["2"])]), &feeds), 0);
}

#[test]
fn mark_read_appends_to_the_first_list_or_starts_one() {
    let mut p = progress(vec![("a", vec!["1"]), ("a", vec![])]);
    mark_read(&mut p, &s("a"), s("2"));
    assert_eq!(p.read[0].1, vec![s("1"), s("2")]);
    assert!(p.read[1].1.is_empty());
    mark_read(&mut p, &s("b"), s("9"));
    assert_eq!(p.read.len(), 3);
    assert_eq!(p.read[2], (s("b"), vec![s("9")]));
}

#[test]
fn read_all_adds_only_missing_ids() {
    let f = feed("a", vec![entry("1", None, None), entry("2", None, None), entry("2", None, None)]);
    let mut p = progress(vec![("a", vec!["2", "old"])]);
    read_all(&mut p, &f);
    assert_eq!(p.read[0].1, vec![s("2"), s("old"), s("1")]);
    let mut q = progress(vec![]);
    read_all(&mut q, &f);
    assert_eq!(q.read[0], (s("a"), vec![s("1"), s("2"), s("2")]));
}

#[test]
fn toggle_settings_opens_then_closes() {
    let mut c = controls_with(vec![]);
    assert!(c.update(Message::ToggleSettings, &no_editors()).is_empty());
    assert!(c.state.window.settings_open);
    assert!(c.state.window.sideselect);
    c.update(Message::ToggleSettings, &no_editors());
    assert!(!c.state.window.settings_open);
    c.state.window.sideselect = false;
    c.state.window.settings_open = true;
    c.update(Message::ToggleSettings, &no_editors());
    assert!(c.state.window.settings_open);
    assert!(c.state.window.sideselect);
}

#[test]
fn side_button_twice_restores_the_sidebar() {
    let mut c = controls_with(vec![]);
    c.update(Message::Side, &no_editors());
    assert!(c.state.window.sidebar);
    c.update(Message::Side, &no_editors());
    assert!(!c.state.window.sidebar);
    c.state.window.sideselect = true;
    c.update(Message::Side, &no_editors());
    assert!(c.state.window.sidebar);
    assert!(!c.state.window.sideselect);
}

#[test]
fn back_from_add_url_closes_settings_in_three_steps() {
    let mut c = controls_with(vec![]);
    c.state.window.settings_open = true;
    c.state.sett = Settings::AddUrl;
    c.update(Message::Back, &no_editors());
    assert_eq!(c.state.sett, Settings::ManageFeeds);
    c.update(Message::Back, &no_editors());
    assert_eq!(c.state.sett, Settings::Normal);
    assert!(c.state.window.settings_open);
    c.update(Message::Back, &no_editors());
    assert!(!c.state.window.settings_open);
}

#[test]
fn back_leaves_article_then_feed() {
    let mut c = controls_with(vec![feed("a", vec![entry("1", None, None)])]);
    c.state.feed = Some(0);
    c.state.artikle = Some(0);
    c.update(Message::Back, &no_editors());
    assert_eq!(c.state.artikle, None);
    assert_eq!(c.state.feed, Some(0));
    c.update(Message::Back, &no_editors());
    assert_eq!(c.state.feed, None);
    assert_eq!(c.state.window.tab, (0, Nav::All));
    c.state.window.tab = (2, Nav::Mixed);
    c.state.feed = Some(0);
    c.update(Message::Back, &no_editors());
    assert_eq!(c.state.feed, Some(0));
}

#[test]
fn sidebar_select_opens_the_chosen_feed() {
    let mut c = controls_with(vec![]);
    c.state.window.settings_open = true;
    c.state.artikle = Some(3);
    c.update(Message::Sidebar(SidebarM::Select((1, Nav::Single(4)))), &no_editors());
    assert!(!c.state.window.settings_open);
    assert!(c.state.window.sideselect);
    assert_eq!(c.state.window.tab, (1, Nav::Single(4)));
    assert_eq!(c.state.feed, Some(4));
    assert_eq!(c.state.artikle, None);
    c.update(Message::Sidebar(SidebarM::Select((0, Nav::All))), &no_editors());
    assert_eq!(c.state.feed, None);
}

#[test]
fn expanding_twice_restores() {
    let mut c = controls_with(vec![]);
    c.update(Message::Sidebar(SidebarM::ExpandAll), &no_editors());
    assert!(c.state.all_expanded);
    c.update(Message::Sidebar(SidebarM::ExpandAll), &no_editors());
    assert!(!c.state.all_expanded);
    c.update(Message::Sidebar(SidebarM::ExpandUnread), &no_editors());
    assert!(c.state.unread_expanded);
    assert!(!c.state.all_expanded);
}

#[test]
fn errors_are_recorded_and_cleared() {
    let mut c = controls_with(vec![]);
    c.update(Message::Error(s("boom")), &no_editors());
    let effects = c.update(Message::Refresh(Err(s("pull failed"))), &no_editors());
    assert_eq!(effects, vec![Effect::Reload { pull: true, after_pull: true }]);
    assert_eq!(c.state.error, vec![s("boom"), s("pull failed")]);
    c.update(Message::Settings(SettingsM::ResetErrors), &no_editors());
    assert!(c.state.error.is_empty());
}

#[test]
fn adding_a_feed_stores_the_trimmed_url() {
    let mut c = controls_with(vec![]);
    let editors = Editors { name: s(" News "), url: s("  https://example.org/rss \n") };
    let effects = c.update(Message::Add(AddM::Add), &editors);
    assert_eq!(effects, vec![Effect::ResetEditors, Effect::SaveOnlineFeeds]);
    assert_eq!(c.state.online_feeds.urls, vec![(s(" News "), s("https://example.org/rss"))]);
    assert_eq!(c.update(Message::Add(AddM::PasteUrl), &editors), vec![Effect::ClipboardRead(1)]);
    assert_eq!(c.update(Message::Add(AddM::PasteName), &editors), vec![Effect::ClipboardRead(0)]);
    assert!(c.update(Message::Add(AddM::ChangeUrl(s("x"))), &editors).is_empty());
}

#[test]
fn removing_an_online_feed_moves_the_last_into_its_place() {
    let mut c = controls_with(vec![]);
    c.state.online_feeds = OnlineFeeds { urls: vec![(s("a"), s("1")), (s("b"), s("2")), (s("c"), s("3"))] };
    let effects = c.update(Message::Settings(SettingsM::RemoveOnline(0)), &no_editors());
    assert_eq!(effects, vec![Effect::ClearOnlineFeeds]);
    assert_eq!(c.state.online_feeds.urls, vec![(s("c"), s("3")), (s("b"), s("2"))]);
}

#[test]
fn adding_a_repository_stores_it_and_closes_settings() {
    let mut c = controls_with(vec![]);
    c.state.window.settings_open = true;
    c.state.sett = Settings::Repo;
    let editors = Editors { name: s("KEY"), url: s("git@host:repo.git") };
    let effects = c.update(Message::Settings(SettingsM::AddRepo), &editors);
    assert_eq!(effects, vec![Effect::RemoveRepoDir, Effect::ResetEditors, Effect::CloneRepo]);
    let git = c.state.settings.git.clone().unwrap();
    assert_eq!(git.repo, s("git@host:repo.git"));
    assert_eq!(git.ssh_priv, s("KEY"));
    assert_eq!(c.state.sett, Settings::Normal);
    assert!(!c.state.window.settings_open);
}

#[test]
fn settings_changes_are_saved() {
    let mut c = controls_with(vec![]);
    assert_eq!(
        c.update(Message::Settings(SettingsM::LangChange(Language::En)), &no_editors()),
        vec![Effect::SetLanguage(Language::En), Effect::SaveSettings]
    );
    assert_eq!(c.state.settings.lang, Some(Language::En));
    c.update(Message::Settings(SettingsM::ThemeChange(Them::Dark)), &no_editors());
    assert_eq!(c.theme, Them::Dark);
    assert_eq!(c.state.settings.theme, Some(Them::Dark));
    c.update(Message::Settings(SettingsM::CheckboxBrowser(false)), &no_editors());
    assert!(!c.state.settings.browser);
    c.update(Message::Settings(SettingsM::ManageFeeds), &no_editors());
    assert_eq!(c.state.sett, Settings::ManageFeeds);
    assert_eq!(c.update(Message::Settings(SettingsM::ResetProgress), &no_editors()), vec![Effect::ClearProgress]);
    assert_eq!(
        c.update(Message::Settings(SettingsM::RemoveOffline(s("/x.xml"))), &no_editors()),
        vec![Effect::RemoveFeedFile(s("/x.xml"))]
    );
}

#[test]
fn directories_decide_the_start() {
    let mut c = controls_with(vec![]);
    assert_eq!(c.update(Message::Boot, &no_editors()), vec![Effect::CheckDirectories]);
    assert_eq!(c.update(Message::Directories(false, false), &no_editors()), vec![Effect::CreateFeedsDir]);
    assert_eq!(c.state.sett, Settings::Repo);
    assert!(c.state.window.settings_open);
    let mut d = controls_with(vec![]);
    assert!(d.update(Message::Directories(true, false), &no_editors()).is_empty());
    assert_eq!(d.state.sett, Settings::Repo);
    let mut e = controls_with(vec![]);
    assert_eq!(
        e.update(Message::Directories(true, true), &no_editors()),
        vec![Effect::Reload { pull: false, after_pull: false }]
    );
    assert!(!e.state.window.settings_open);
}

#[test]
fn loaded_feeds_without_unread_show_all_feeds() {
    let mut c = Controls::with_settings(PSettings::default());
    let feeds = vec![(feed("a", vec![entry("1", None, None)]), imag())];
    let loaded = ((Some(feeds), Some(vec![(s("feed a"), s("https://a.org/"))])), Some(progress(vec![("a", vec!["1"])])), OnlineFeeds { urls: vec![] });
    let effects = c.update(Message::Loaded((loaded, true)), &no_editors());
    assert_eq!(effects, vec![Effect::FetchIcons(vec![(s("feed a"), s("https://a.org/"))])]);
    assert_eq!(c.state.window.tab.0, 1);
    assert_eq!(c.state.read.read.len(), 1);
    let again = ((None, None), None, OnlineFeeds { urls: vec![(s("n"), s("u"))] });
    let effects = c.update(Message::Loaded((again, false)), &no_editors());
    assert_eq!(effects, vec![Effect::Reload { pull: true, after_pull: true }]);
    assert!(c.state.channels.is_none());
    assert_eq!(c.state.read.read.len(), 1);
    assert_eq!(c.state.online_feeds.urls.len(), 1);
}

#[test]
fn clipboard_and_editor_actions() {
    let mut c = controls_with(vec![]);
    assert_eq!(c.update(Message::Clipboard(s("t"), 1), &no_editors()), vec![Effect::PasteIntoEditor(1, s("t"))]);
    assert!(c.update(Message::Clipboard(s("t"), 2), &no_editors()).is_empty());
    assert_eq!(c.update(Message::EditorAction(EditorAction::Click, 0), &no_editors()), vec![Effect::ShowKeyboard]);
    assert_eq!(c.update(Message::EditorAction(EditorAction::SelectWord, 5), &no_editors()), vec![Effect::HideKeyboard]);
    assert_eq!(c.update(Message::EditorAction(EditorAction::Edit, 0), &no_editors()), vec![Effect::EditEditor(0, true)]);
    assert_eq!(c.update(Message::EditorAction(EditorAction::Other, 1), &no_editors()), vec![Effect::EditEditor(1, false)]);
    assert!(c.update(Message::EditorAction(EditorAction::Edit, 3), &no_editors()).is_empty());
    assert_eq!(c.update(Message::Exit, &no_editors()), vec![Effect::CloseWindow]);
    assert!(c.update(Message::Nothing, &no_editors()).is_empty());
}

#[test]
fn selecting_an_article_in_the_browser_marks_it_read() {
    let mut c = controls_with(vec![feed("a", vec![entry("1", None, None), entry("2", None, None)])]);
    let effects = c.update(Message::ArtikleList(ArtikleListM::Select(Some(0), 1, true)), &no_editors());
    assert_eq!(effects, vec![Effect::OpenUrl(s("https://example.org/2")), Effect::SaveProgress]);
    assert_eq!(c.state.read.read, vec![(s("a"), vec![s("2")])]);
    assert!(c.markdown.is_none());
    assert_eq!(c.state.artikle, None);
}

#[test]
fn selecting_an_article_without_browser_shows_markdown() {
    let mut c = controls_with(vec![feed("a", vec![entry("1", None, Some("<p>Hello <b>world</b></p>")), entry("2", None, None)])]);
    c.state.settings.browser = false;
    c.state.window.tab = (1, Nav::Single(0));
    let effects = c.update(Message::ArtikleList(ArtikleListM::Select(Some(0), 0, false)), &no_editors());
    assert_eq!(effects, vec![Effect::SaveProgress]);
    let md = c.markdown.clone().unwrap();
    assert!(md.contains("Hello"));
    assert!(md.contains("**world**"));
    assert!(!md.contains("<p>"));
    assert_eq!(c.state.artikle, Some(0));
    assert_eq!(c.state.feed, Some(0));
    assert!(c.state.read.read.is_empty());
    let effects = c.update(Message::ArtikleList(ArtikleListM::Select(None, 1, false)), &no_editors());
    assert_eq!(effects, vec![Effect::OpenUrl(s("https://example.org/2")), Effect::SaveProgress]);
}

#[test]
fn reading_the_last_unread_article_leaves_the_feed() {
    let mut c = controls_with(vec![feed("a", vec![entry("1", None, None)]), feed("b", vec![entry("2", None, None)])]);
    c.state.feed = Some(0);
    c.update(Message::ArtikleList(ArtikleListM::Select(None, 0, true)), &no_editors());
    assert_eq!(c.state.feed, None);
    assert_eq!(c.state.window.tab.0, 0);
    c.state.feed = Some(1);
    c.update(Message::ArtikleList(ArtikleListM::Select(None, 0, true)), &no_editors());
    assert_eq!(c.state.feed, None);
    assert_eq!(c.state.window.tab, (1, Nav::Blank));
}

#[test]
fn read_all_of_the_last_feed_switches_to_all_feeds() {
    let mut c = controls_with(vec![feed("a", vec![entry("1", None, None), entry("2", None, None)])]);
    c.update(Message::FeedList(FeedListM::ReadAll(0)), &no_editors());
    assert_eq!(c.state.read.read, vec![(s("a"), vec![s("1"), s("2")])]);
    assert_eq!(c.state.window.tab, (1, Nav::Blank));
    c.update(Message::FeedList(FeedListM::Select(0)), &no_editors());
    assert_eq!(c.state.feed, Some(0));
}

#[test]
fn feed_view_opens_links() {
    let mut c = controls_with(vec![feed("a", vec![entry("1", None, None)])]);
    assert_eq!(
        c.update(Message::FeedView(FeedViewM::LinkClicked(s("https://x.org"))), &no_editors()),
        vec![Effect::OpenUrl(s("https://x.org"))]
    );
    assert!(c.update(Message::FeedView(FeedViewM::Open), &no_editors()).is_empty());
    c.state.feed = Some(0);
    c.state.artikle = Some(0);
    assert_eq!(
        c.update(Message::FeedView(FeedViewM::Open), &no_editors()),
        vec![Effect::OpenUrl(s("https://example.org/1"))]
    );
}

#[test]
fn mixed_list_is_newest_first_with_ties_in_feed_order() {
    let feeds = vec![
        (feed("a", vec![entry("a1", Some((100, 0)), None), entry("a2", None, None), entry("a3", Some((200, 5)), None)]), imag()),
        (feed("b", vec![entry("b1", Some((200, 5)), None), entry("b2", Some((200, 7)), None), entry("b3", Some((100, 0)), None)]), imag()),
    ];
    let read = progress(vec![("b", vec!["b3"])]);
    let list = unread_mixed(&read, &feeds);
    let order: Vec<(usize, usize)> = list.iter().map(|i| (i.feed, i.artikle)).collect();
    assert_eq!(order, vec![(1, 1), (0, 2), (1, 0), (0, 0), (0, 1)]);
    assert_eq!(list[0].title, s("title b2"));
}

#[test]
fn feed_articles_show_read_ones_outside_the_first_tab() {
    let f = feed("a", vec![entry("1", None, None), entry("2", None, None)]);
    let read = progress(vec![("a", vec!["1"])]);
    let first: Vec<(usize, bool)> = feed_artikles(&read, &f, false).iter().map(|r| (r.artikle, r.unread)).collect();
    assert_eq!(first, vec![(1, true)]);
    let other: Vec<(usize, bool)> = feed_artikles(&read, &f, true).iter().map(|r| (r.artikle, r.unread)).collect();
    assert_eq!(other, vec![(0, false), (1, true)]);
}

#[test]
fn back_message_is_nothing_and_title_is_fixed() {
    assert!(matches!(back_message(3), Message::Nothing));
    assert_eq!(controls_with(vec![]).title(), s("Unirss"));
}

#[test]
fn marking_read_lowers_only_that_feeds_count() {
    let a = feed("a", vec![entry("1", None, None), entry("2", None, None)]);
    let b = feed("b", vec![entry("3", None, None)]);
    let mut p = progress(vec![("b", vec![])]);
    mark_read(&mut p, &s("a"), s("1"));
    assert_eq!(artikles_unread(&p, &a), 1);
    assert_eq!(artikles_unread(&p, &b), 1);
    mark_read(&mut p, &s("a"), s("2"));
    assert_eq!(artikles_unread(&p, &a), 0);
}

#[test]
fn read_all_leaves_no_unread_article() {
    let a = feed("a", vec![entry("1", None, None), entry("2", None, None), entry("3", None, None)]);
    let b = feed("b", vec![entry("4", None, None)]);
    let mut p = progress(vec![("a", vec!["2"])]);
    read_all(&mut p, &a);
    assert_eq!(artikles_unread(&p, &a), 0);
    assert_eq!(artikles_unread(&p, &b), 1);
    let mut q = progress(vec![]);
    read_all(&mut q, &b);
    assert_eq!(artikles_unread(&q, &b), 0);
}

#[test]
fn the_start_state_is_closed_and_empty() {
    let c = Controls::with_settings(PSettings::default());
    assert_eq!(c.state.sett, Settings::Normal);
    assert!(c.state.feed.is_none() && c.state.artikle.is_none());
    assert!(!c.state.window.settings_open && !c.state.window.sideselect && !c.state.window.sidebar);
    assert_eq!(c.state.window.tab, (0, Nav::Mixed));
    assert!(c.state.error.is_empty() && c.state.url.is_empty() && c.state.read.read.is_empty());
    assert!(c.markdown.is_none());
}

#[test]
fn an_open_article_keeps_its_feed_through_back_and_sidebar() {
    let mut c = controls_with(vec![feed("a", vec![entry("1", None, Some("<p>x</p>"))])]);
    c.state.settings.browser = false;
    c.update(Message::ArtikleList(ArtikleListM::Select(Some(0), 0, false)), &no_editors());
    assert!(c.state.artikle.is_some() && c.state.feed.is_some());
    c.update(Message::Side, &no_editors());
    assert!(c.state.artikle.is_none() || c.state.feed.is_some());
    c.update(Message::Back, &no_editors());
    assert!(c.state.artikle.is_none());
    assert_eq!(c.state.feed, Some(0));
}

#[test]
fn page_rows_carry_their_messages() {
    let row = FeedRow { index: 3, title: s("t"), unread: Some(2) };
    assert!(matches!(row.select_message(), FeedListM::Select(3)));
    assert!(matches!(row.read_all_message(), FeedListM::ReadAll(3)));
    assert!(matches!(row.sidebar_message(1), SidebarM::Select((1, Nav::Single(3)))));
    let c = controls_with(vec![
        feed("a", vec![entry("1", Some((5, 0)), None)]),
        feed("b", vec![entry("2", Some((9, 0)), None), entry("3", None, None)]),
    ]);
    let items = unread_mixed(&c.state.read, c.state.channels.as_ref().unwrap());
    assert!(matches!(items[0].select_message(), ArtikleListM::Select(Some(1), 0, true)));
    assert!(matches!(items[1].select_message(), ArtikleListM::Select(Some(0), 0, true)));
    let rows = feed_artikles(&progress(vec![("b", vec!["2"])]), &c.state.channels.as_ref().unwrap()[1].0, true);
    assert!(matches!(rows[0].select_message(), ArtikleListM::Select(None, 0, false)));
    assert!(matches!(rows[1].select_message(), ArtikleListM::Select(None, 1, true)));
}

#[test]
fn sidebar_buttons_select_their_views() {
    let mut c = controls_with(vec![feed("a", vec![entry("1", None, None)]), feed("b", vec![])]);
    c.state.unread_expanded = true;
    c.state.all_expanded = true;
    let v = c.state.sidebar_view();
    assert!(v.show_all_feeds && v.show_unread);
    assert!(matches!(v.mixed_message(), SidebarM::Select((0, Nav::Mixed))));
    assert!(matches!(v.all_message(), SidebarM::Select((0, Nav::All))));
    assert!(matches!(v.all_feeds_message(), SidebarM::Select((1, Nav::Blank))));
    assert!(matches!(v.expand_unread_message(), SidebarM::ExpandUnread));
    assert!(matches!(v.expand_all_message(), SidebarM::ExpandAll));
    assert_eq!(v.unread_rows.len(), 1);
    assert!(matches!(v.unread_row_message(0), SidebarM::Select((0, Nav::Single(0)))));
    assert!(matches!(v.all_row_message(1), SidebarM::Select((1, Nav::Single(1)))));
}

#[test]
fn settings_buttons_send_their_messages() {
    let mut c = controls_with(vec![]);
    c.state.sett = Settings::ManageFeeds;
    let page = c.state.settings_page(&vec![]);
    assert!(matches!(page.button_message(SettingsButton::Add), Some(Message::Settings(SettingsM::AddUrl))));
    assert!(page.button_message(SettingsButton::Refresh).is_none());
    c.state.sett = Settings::Normal;
    let page = c.state.settings_page(&vec![]);
    assert!(matches!(page, SettingsPage::Normal { .. }));
    assert!(matches!(page.button_message(SettingsButton::Refresh), Some(Message::Refresh(Ok(())))));
    assert!(matches!(page.button_message(SettingsButton::Manage), Some(Message::Settings(SettingsM::ManageFeeds))));
    assert!(page.button_message(SettingsButton::ClearErrors).is_none());
    c.state.error.push(s("e"));
    let page = c.state.settings_page(&vec![]);
    assert!(matches!(page.button_message(SettingsButton::ClearErrors), Some(Message::Settings(SettingsM::ResetErrors))));
    c.state.sett = Settings::AddUrl;
    let page = c.state.settings_page(&vec![]);
    assert!(matches!(page.button_message(SettingsButton::Add), Some(Message::Add(AddM::Add))));
    c.state.sett = Settings::Repo;
    let page = c.state.settings_page(&vec![]);
    assert!(matches!(page.button_message(SettingsButton::PasteName), Some(Message::Settings(SettingsM::PasteSsh))));
}
