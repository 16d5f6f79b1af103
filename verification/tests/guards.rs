use unirss::guards::{
    all_countable_check, entries_titled_check, feeds_titled_check, unread_feeds_titled_check,
    unread_titled_check, unread_total_fits_check,
};
use unirss::controls::{Controls, Message};
use unirss::model::{Entry, Feed, Nav, Progress};
use unirss::pages::add_url::AddM;
use unirss::pages::artikle_list::ArtikleListM;
use unirss::pages::feed_list::FeedListM;
use unirss::pages::feed_view::FeedViewM;
use unirss::per::Imag;
use unirss::settings::{PSettings, SettingsM};

fn s(x: &str) -> String {
    x.to_string()
}

fn entry(id: &str, titled: bool) -> Entry {
    Entry {
        id: s(id),
        title: if titled { Some(format!("title {}", id)) } else { None },
        updated: None,
        links: vec![format!("https://example.org/{}", id)],
        content: Some(Some(s("<p>text</p>"))),
    }
}

fn feed(id: &str, titled: bool, entries: Vec<Entry>) -> Feed {
    Feed {
        id: s(id),
        title: if titled { Some(format!("feed {}", id)) } else { None },
        links: vec![],
        entries,
    }
}

fn imag() -> Imag {
    Imag { id: String::new(), name: None }
}

fn progress(lists: Vec<(&str, Vec<&str>)>) -> Progress {
    Progress { read: lists.into_iter().map(|(f, ids)| (s(f), ids.into_iter().map(s).collect())).collect() }
}

fn with_feeds(feeds: Vec<Feed>) -> Controls {
    let mut c = Controls::with_settings(PSettings::default());
    c.state.channels = Some(feeds.into_iter().map(|f| (f, imag())).collect());
    c
}

#[test]
fn a_read_list_longer_than_the_feed_cannot_be_counted() {
    let feeds = vec![(feed("a", true, vec![entry("1", true)]), imag())];
    assert!(all_countable_check(&progress(vec![("a", vec!["1"])]), &feeds));
    assert!(!all_countable_check(&progress(vec![("a", vec!["1", "2"])]), &feeds));
    assert!(all_countable_check(&progress(vec![("a", vec![]), ("a", vec!["1", "2"])]), &feeds));
}

#[test]
fn only_unread_articles_need_a_title() {
    let feeds = vec![(feed("a", true, vec![entry("1", false), entry("2", true)]), imag())];
    assert!(!unread_titled_check(&progress(vec![]), &feeds));
    assert!(unread_titled_check(&progress(vec![("a", vec!["1"])]), &feeds));
    assert!(!entries_titled_check(&feeds[0].0));
    assert!(entries_titled_check(&feed("b", false, vec![entry("3", true)])));
}

#[test]
fn only_feeds_with_unread_articles_need_a_title() {
    let feeds = vec![
        (feed("a", false, vec![entry("1", true)]), imag()),
        (feed("b", true, vec![entry("2", true)]), imag()),
    ];
    assert!(!unread_feeds_titled_check(&progress(vec![]), &feeds));
    assert!(unread_feeds_titled_check(&progress(vec![("a", vec!["1"])]), &feeds));
    assert!(!feeds_titled_check(&feeds));
    assert!(feeds_titled_check(&feeds[1..].to_vec()));
}

#[test]
fn small_totals_fit() {
    let feeds = vec![
        (feed("a", true, vec![entry("1", true), entry("2", true)]), imag()),
        (feed("b", true, vec![entry("3", true)]), imag()),
    ];
    assert!(unread_total_fits_check(&progress(vec![]), &feeds));
}

#[test]
fn the_sidebar_needs_titles_only_when_expanded() {
    let mut c = with_feeds(vec![feed("a", false, vec![entry("1", true)])]);
    assert!(c.state.can_show_sidebar());
    c.state.all_expanded = true;
    assert!(!c.state.can_show_sidebar());
    c.state.all_expanded = false;
    c.state.unread_expanded = true;
    assert!(!c.state.can_show_sidebar());
    c.state.read = progress(vec![("a", vec!["1"])]);
    assert!(c.state.can_show_sidebar());
    c.state.read = progress(vec![("a", vec!["1", "2"])]);
    assert!(!c.state.can_show_sidebar());
}

#[test]
fn the_feed_area_checks_what_it_shows() {
    let mut c = with_feeds(vec![feed("a", false, vec![entry("1", false)])]);
    assert!(!c.state.can_show_feed_list());
    assert!(!c.state.can_show_artikle_list());
    c.state.read = progress(vec![("a", vec!["1"])]);
    assert!(c.state.can_show_feed_list());
    c.state.window.tab = (1, Nav::Blank);
    assert!(!c.state.can_show_feed_list());
    c.state.window.tab = (0, Nav::All);
    assert!(c.state.can_show_feed_list());
    c.state.feed = Some(0);
    assert!(!c.state.can_show_feed_list());
    c.state.feed = Some(3);
    assert!(!c.state.can_show_artikle_list());
}

#[test]
fn the_article_view_needs_a_title_and_a_body() {
    let mut c = with_feeds(vec![feed("a", true, vec![entry("1", true), entry("2", false)])]);
    assert!(c.can_show_feed_view());
    c.state.feed = Some(0);
    c.state.artikle = Some(0);
    assert!(c.can_show_feed_view());
    c.state.artikle = Some(1);
    assert!(!c.can_show_feed_view());
    c.state.artikle = Some(5);
    assert!(!c.can_show_feed_view());
}

#[test]
fn messages_that_need_a_repository_are_refused_without_one() {
    let mut c = with_feeds(vec![]);
    assert!(c.can_take(&Message::Add(AddM::Add)));
    assert!(c.can_take(&Message::Settings(SettingsM::ResetProgress)));
    c.state.settings.git = None;
    assert!(!c.can_take(&Message::Add(AddM::Add)));
    assert!(!c.can_take(&Message::Settings(SettingsM::ResetFeeds)));
    assert!(!c.can_take(&Message::Settings(SettingsM::RemoveOffline(s("x")))));
    assert!(c.can_take(&Message::Settings(SettingsM::ManageFeeds)));
    assert!(c.can_take(&Message::Back));
}

#[test]
fn removing_an_online_feed_needs_one_there() {
    let mut c = with_feeds(vec![]);
    assert!(!c.can_take(&Message::Settings(SettingsM::RemoveOnline(0))));
    c.state.online_feeds.urls.push((s("n"), s("u")));
    assert!(c.can_take(&Message::Settings(SettingsM::RemoveOnline(0))));
    assert!(!c.can_take(&Message::Settings(SettingsM::RemoveOnline(1))));
}

#[test]
fn article_selection_is_checked() {
    let c = with_feeds(vec![feed("a", true, vec![entry("1", true), entry("2", true)])]);
    assert!(c.can_take(&Message::ArtikleList(ArtikleListM::Select(Some(0), 1, true))));
    assert!(!c.can_take(&Message::ArtikleList(ArtikleListM::Select(Some(0), 2, true))));
    assert!(!c.can_take(&Message::ArtikleList(ArtikleListM::Select(Some(1), 0, true))));
    assert!(!c.can_take(&Message::ArtikleList(ArtikleListM::Select(None, 0, true))));
    let mut full = with_feeds(vec![feed("a", true, vec![entry("1", true)])]);
    full.state.read = progress(vec![("a", vec!["1"])]);
    assert!(!full.can_take(&Message::ArtikleList(ArtikleListM::Select(Some(0), 0, true))));
    assert!(full.can_take(&Message::ArtikleList(ArtikleListM::Select(Some(0), 0, false))));
    let mut unlinked = with_feeds(vec![feed("a", true, vec![entry("1", true)])]);
    if let Some(ch) = unlinked.state.channels.as_mut() {
        ch[0].0.entries[0].links.clear();
    }
    assert!(!unlinked.can_take(&Message::ArtikleList(ArtikleListM::Select(Some(0), 0, false))));
    assert!(unlinked.can_take(&Message::FeedView(FeedViewM::Open)));
    unlinked.state.feed = Some(0);
    unlinked.state.artikle = Some(0);
    assert!(!unlinked.can_take(&Message::FeedView(FeedViewM::Open)));
    assert!(unlinked.can_take(&Message::FeedView(FeedViewM::LinkClicked(s("https://x.org")))));
}

#[test]
fn read_all_and_loaded_messages_are_checked() {
    let mut c = with_feeds(vec![feed("a", true, vec![entry("1", true)])]);
    assert!(c.can_take(&Message::FeedList(FeedListM::ReadAll(0))));
    assert!(!c.can_take(&Message::FeedList(FeedListM::ReadAll(1))));
    c.state.read = progress(vec![("a", vec!["x", "y"])]);
    assert!(!c.can_take(&Message::FeedList(FeedListM::ReadAll(0))));
    let fresh = Some(vec![(feed("a", true, vec![entry("1", true)]), imag())]);
    let online = unirss::model::OnlineFeeds { urls: vec![] };
    let with_progress = (((fresh.clone(), None), Some(progress(vec![])), online.clone()), true);
    assert!(c.can_take(&Message::Loaded(with_progress)));
    let without = (((fresh, None), None, online), true);
    assert!(!c.can_take(&Message::Loaded(without)));
}

#[test]
fn manage_page_lists_online_feeds_then_files() {
    let mut c = with_feeds(vec![]);
    c.state.online_feeds.urls = vec![(s("n1"), s("u1")), (s("n2"), s("u2"))];
    c.state.sett = unirss::model::Settings::ManageFeeds;
    let files = vec![Some((s("a.xml"), s("/r/a.xml"))), None];
    match c.state.settings_page(&files) {
        unirss::views::SettingsPage::ManageFeeds(rows) => {
            assert_eq!(rows.len(), 4);
            assert!(matches!(&rows[0], unirss::views::ManageRow::Online(n, 0) if n == "n1"));
            assert!(matches!(&rows[1], unirss::views::ManageRow::Online(n, 1) if n == "n2"));
            assert!(matches!(&rows[2], unirss::views::ManageRow::Offline(n, p) if n == "a.xml" && p == "/r/a.xml"));
            assert!(matches!(&rows[3], unirss::views::ManageRow::Unreadable));
            assert!(matches!(rows[1].remove_message(), Some(SettingsM::RemoveOnline(1))));
            assert!(matches!(rows[2].remove_message(), Some(SettingsM::RemoveOffline(p)) if p == "/r/a.xml"));
            assert!(rows[3].remove_message().is_none());
        }
        other => panic!("unexpected page {:?}", other),
    }
}

#[test]
fn main_settings_page_lists_errors_only_when_there_are_some() {
    let mut c = with_feeds(vec![]);
    match c.state.settings_page(&vec![]) {
        unirss::views::SettingsPage::Normal { browser, errors, .. } => {
            assert!(browser);
            assert!(errors.is_none());
        }
        other => panic!("unexpected page {:?}", other),
    }
    c.state.error.push(s("boom"));
    match c.state.settings_page(&vec![]) {
        unirss::views::SettingsPage::Normal { errors, .. } => assert_eq!(errors, Some(vec![s("boom")])),
        other => panic!("unexpected page {:?}", other),
    }
    c.state.sett = unirss::model::Settings::Repo;
    assert!(matches!(c.state.settings_page(&vec![]), unirss::views::SettingsPage::Repo));
}
