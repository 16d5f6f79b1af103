//! What each part of the window shows, decided from the state.
use vstd::prelude::*;
use crate::comps::sidebar::SidebarM;
use crate::controls::{Controls, ControlsModel, Message, Uniquiz, UniquizModel};
use crate::pages::add_url::AddM;
use crate::model::{Nav, OnlineFeeds, Settings, Window, WindowModel};
use crate::settings::{Language, SettingsM, Them};
use crate::text::copy_texts;
use crate::pages::artikle_list::{
    entries_titled, feed_artikles, feed_rows_match, feed_rows_spec, lists_entry, mixed_items_valid,
    mixed_sorted, is_unread_entry, unread_mixed, unread_titled, FeedArtikle, MixedItem,
};
use crate::pages::feed_list::{
    all_countable, all_feed_rows, all_rows_spec, feeds_titled, rows_match, total_unread,
    unread_feed_rows, unread_feeds_titled, unread_rows_spec, unread_total_fits, unread_total_spec,
    FeedRow,
};

verus! {

/// How the window divides between sidebar and content.
#[derive(Clone, Copy, Debug, PartialEq, Eq, Structural)]
pub enum Layout {
    SidebarAndContent,
    Content,
    Sidebar,
}

impl Window {
    /// The layout on a window that is wider than the breakpoint (`wide`) or
    /// not: a wide window shows an open sidebar beside the content; a narrow
    /// one shows the content when it was brought forward, else the open
    /// sidebar; otherwise the content.
    pub fn layout(&self, wide: bool) -> (res: Layout)
        ensures
            res == if wide && self.sidebar {
                Layout::SidebarAndContent
            } else if !wide && self.sideselect {
                Layout::Content
            } else if self.sidebar && !self.sideselect {
                Layout::Sidebar
            } else {
                Layout::Content
            },
    {
        if wide && self.sidebar {
            Layout::SidebarAndContent
        } else if !wide && self.sideselect {
            Layout::Content
        } else if self.sidebar && !self.sideselect {
            Layout::Sidebar
        } else {
            Layout::Content
        }
    }
}

/// What the article area shows.
#[derive(Clone, Debug)]
pub enum ArtikleListPage {
    /// The unread articles of all feeds, newest first.
    Mixed(Vec<MixedItem>),
    /// The selected article.
    Article,
    /// The articles of the feed at the position.
    Feed(usize, Vec<FeedArtikle>),
    /// No article.
    Missing,
}

/// The article area shows the mixed list of unread articles.
pub open spec fn shows_mixed(s: UniquizModel) -> bool {
    s.channels is Some && s.artikle is None && s.window.tab.1 == Nav::Mixed
}

/// The article area shows one article.
pub open spec fn shows_article(s: UniquizModel) -> bool {
    !shows_mixed(s) && s.artikle is Some && s.feed is Some
}

/// The article area shows the articles of one feed.
pub open spec fn shows_feed(s: UniquizModel) -> bool {
    !shows_mixed(s) && !shows_article(s) && s.channels is Some && s.artikle is None && s.feed is Some
}

/// The article area can be decided: the titles it shows exist.
pub open spec fn artikle_list_ok(s: UniquizModel) -> bool {
    &&& shows_mixed(s) ==> unread_titled(s.read, s.channels.unwrap())
    &&& shows_feed(s) ==> s.feed.unwrap() < s.channels.unwrap().len() && entries_titled(
        s.channels.unwrap()[s.feed.unwrap() as int].0,
    )
}

/// What the article area shows for state `s`.
pub open spec fn artikle_page_is(s: UniquizModel, res: ArtikleListPage) -> bool {
    if shows_mixed(s) {
        (res matches ArtikleListPage::Mixed(v) && {
            &&& mixed_sorted(s.channels.unwrap(), v@)
            &&& mixed_items_valid(s.read, s.channels.unwrap(), v@)
            &&& forall|f: int, a: int| lists_entry(v@, f, a) <==> is_unread_entry(s.read, s.channels.unwrap(), f, a)
        })
    } else if shows_article(s) {
        res is Article
    } else if shows_feed(s) {
        (res matches ArtikleListPage::Feed(n, rows) && n == s.feed.unwrap() && {
            let feed = s.channels.unwrap()[n as int].0;
            feed_rows_match(feed, rows@, feed_rows_spec(s.read, feed, s.window.tab.0 != 0, feed.entries@.len() as int))
        })
    } else {
        res is Missing
    }
}

impl Uniquiz {
    /// Decides what the article area shows: the unread articles of all feeds
    /// (in the mixed view), the selected article, the articles of the selected
    /// feed (the read ones too outside the first tab), or nothing.
    pub fn artikle_list_page(&self) -> (res: ArtikleListPage)
        requires
            artikle_list_ok(self@),
        ensures
            artikle_page_is(self@, res),
    {
        match &self.channels {
            Some(channels) => {
                if self.artikle.is_none() && self.window.tab.1 == Nav::Mixed {
                    return ArtikleListPage::Mixed(unread_mixed(&self.read, channels));
                }
            },
            None => {},
        }
        if self.artikle.is_some() && self.feed.is_some() {
            return ArtikleListPage::Article;
        }
        match (&self.channels, self.artikle, self.feed) {
            (Some(channels), None, Some(n)) => {
                let rows = feed_artikles(&self.read, &channels[n].0, self.window.tab.0 != 0);
                ArtikleListPage::Feed(n, rows)
            },
            _ => ArtikleListPage::Missing,
        }
    }
}

/// What the feed area shows.
#[derive(Clone, Debug)]
pub enum FeedListPage {
    /// The article area.
    Artikles(ArtikleListPage),
    /// The feeds with unread articles.
    UnreadFeeds(Vec<FeedRow>),
    /// All feeds.
    AllFeeds(Vec<FeedRow>),
    /// No feeds were loaded.
    NothingFound,
    /// Nothing to show.
    Empty,
}

/// The feed area shows the article area.
pub open spec fn feed_area_artikles(s: UniquizModel) -> bool {
    s.feed is Some || s.window.tab == (0usize, Nav::Mixed)
}

/// The feed area can be decided: the counts and titles it shows exist.
pub open spec fn feed_list_page_ok(s: UniquizModel) -> bool {
    &&& feed_area_artikles(s) ==> artikle_list_ok(s)
    &&& (!feed_area_artikles(s) && s.window.tab == (0usize, Nav::All) && s.channels is Some) ==> {
        &&& all_countable(s.read, s.channels.unwrap())
        &&& unread_feeds_titled(s.read, s.channels.unwrap())
    }
    &&& (!feed_area_artikles(s) && s.window.tab.0 == 1 && s.channels is Some) ==> feeds_titled(s.channels.unwrap())
}

impl Uniquiz {
    /// Decides what the feed area shows: with a feed selected, or in the mixed
    /// view, the article area; in the first tab, the feeds with unread
    /// articles; in the second, all feeds.
    pub fn feed_list_page(&self) -> (res: FeedListPage)
        requires
            feed_list_page_ok(self@),
        ensures
            feed_area_artikles(self@) ==> (res matches FeedListPage::Artikles(p) && artikle_page_is(self@, p)),
            !feed_area_artikles(self@) && self@.window.tab == (0usize, Nav::All) ==> match self@.channels {
                Some(ch) => (res matches FeedListPage::UnreadFeeds(rows) && rows_match(
                    ch,
                    rows@,
                    unread_rows_spec(self@.read, ch, ch.len() as int),
                    true,
                )),
                None => res is Empty,
            },
            !feed_area_artikles(self@) && self@.window.tab.0 == 1 ==> match self@.channels {
                Some(ch) => (res matches FeedListPage::AllFeeds(rows) && rows_match(
                    ch,
                    rows@,
                    all_rows_spec(ch.len() as int),
                    false,
                )),
                None => res is NothingFound,
            },
            !feed_area_artikles(self@) && self@.window.tab != (0usize, Nav::All) && self@.window.tab.0 != 1
                ==> res is Empty,
    {
        if self.feed.is_some() {
            return FeedListPage::Artikles(self.artikle_list_page());
        }
        let (t, nav) = self.window.tab;
        if t == 0 && nav == Nav::All {
            match &self.channels {
                Some(channels) => FeedListPage::UnreadFeeds(unread_feed_rows(&self.read, channels)),
                None => FeedListPage::Empty,
            }
        } else if t == 1 {
            match &self.channels {
                Some(channels) => FeedListPage::AllFeeds(all_feed_rows(channels)),
                None => FeedListPage::NothingFound,
            }
        } else if t == 0 && nav == Nav::Mixed {
            FeedListPage::Artikles(self.artikle_list_page())
        } else {
            FeedListPage::Empty
        }
    }
}

/// What the sidebar shows.
#[derive(Clone, Debug)]
pub struct SidebarView {
    /// The number of unread articles of all feeds.
    pub unread_total: usize,
    /// Whether the section of unread feeds is shown (when there are unread articles).
    pub show_unread: bool,
    /// The feeds with unread articles, when that section is expanded.
    pub unread_rows: Vec<FeedRow>,
    /// All feeds, when that section is expanded.
    pub all_rows: Vec<FeedRow>,
    /// Whether the section of all feeds is shown: always.
    pub show_all_feeds: bool,
}

impl SidebarView {
    /// The message of the button that shows the count of unread articles:
    /// the mixed list of unread articles in the first tab.
    pub fn mixed_message(&self) -> (res: SidebarM)
        ensures
            res == SidebarM::Select((0usize, Nav::Mixed)),
    {
        SidebarM::Select((0, Nav::Mixed))
    }

    /// The message of the `All` button of the unread section: the feeds with
    /// unread articles, in the first tab.
    pub fn all_message(&self) -> (res: SidebarM)
        ensures
            res == SidebarM::Select((0usize, Nav::All)),
    {
        SidebarM::Select((0, Nav::All))
    }

    /// The message of the button of the section of all feeds: the second tab,
    /// with no feed selected.
    pub fn all_feeds_message(&self) -> (res: SidebarM)
        ensures
            res == SidebarM::Select((1usize, Nav::Blank)),
    {
        SidebarM::Select((1, Nav::Blank))
    }

    /// The message of the arrow of the unread section.
    pub fn expand_unread_message(&self) -> (res: SidebarM)
        ensures
            res == SidebarM::ExpandUnread,
    {
        SidebarM::ExpandUnread
    }

    /// The message of the arrow of the section of all feeds.
    pub fn expand_all_message(&self) -> (res: SidebarM)
        ensures
            res == SidebarM::ExpandAll,
    {
        SidebarM::ExpandAll
    }

    /// The message of the button of unread row `k`: its feed, in the first tab.
    pub fn unread_row_message(&self, k: usize) -> (res: SidebarM)
        requires
            k < self.unread_rows@.len(),
        ensures
            res == SidebarM::Select((0usize, Nav::Single(self.unread_rows@[k as int].index))),
    {
        self.unread_rows[k].sidebar_message(0)
    }

    /// The message of the button of row `k` of all feeds: its feed, in the
    /// second tab.
    pub fn all_row_message(&self, k: usize) -> (res: SidebarM)
        requires
            k < self.all_rows@.len(),
        ensures
            res == SidebarM::Select((1usize, Nav::Single(self.all_rows@[k as int].index))),
    {
        self.all_rows[k].sidebar_message(1)
    }
}

/// The sidebar can be decided: counts, their sum and the shown titles exist.
pub open spec fn sidebar_ok(s: UniquizModel) -> bool {
    s.channels is Some ==> {
        &&& all_countable(s.read, s.channels.unwrap())
        &&& unread_total_fits(s.read, s.channels.unwrap())
        &&& s.unread_expanded ==> unread_feeds_titled(s.read, s.channels.unwrap())
        &&& s.all_expanded ==> feeds_titled(s.channels.unwrap())
    }
}

impl Uniquiz {
    /// Decides what the sidebar shows.
    pub fn sidebar_view(&self) -> (res: SidebarView)
        requires
            sidebar_ok(self@),
        ensures
            res.unread_total == match self@.channels {
                Some(ch) => unread_total_spec(self@.read, ch, ch.len() as int),
                None => 0,
            },
            res.show_unread == (res.unread_total > 0),
            res.show_all_feeds,
            match self@.channels {
                Some(ch) => {
                    &&& self@.unread_expanded ==> rows_match(ch, res.unread_rows@, unread_rows_spec(self@.read, ch, ch.len() as int), true)
                    &&& !self@.unread_expanded ==> res.unread_rows@.len() == 0
                    &&& self@.all_expanded ==> rows_match(ch, res.all_rows@, all_rows_spec(ch.len() as int), false)
                    &&& !self@.all_expanded ==> res.all_rows@.len() == 0
                },
                None => res.unread_rows@.len() == 0 && res.all_rows@.len() == 0,
            },
    {
        match &self.channels {
            Some(channels) => {
                let unread_total = total_unread(&self.read, channels);
                let unread_rows = if self.unread_expanded {
                    unread_feed_rows(&self.read, channels)
                } else {
                    Vec::new()
                };
                let all_rows = if self.all_expanded {
                    all_feed_rows(channels)
                } else {
                    Vec::new()
                };
                SidebarView { unread_total, show_unread: unread_total > 0, unread_rows, all_rows, show_all_feeds: true }
            },
            None => SidebarView {
                unread_total: 0,
                show_unread: false,
                unread_rows: Vec::new(),
                all_rows: Vec::new(),
                show_all_feeds: true,
            },
        }
    }
}

/// What the article view shows.
#[derive(Clone, Debug)]
pub enum FeedViewPage {
    /// The title, with the article's markdown text below it.
    Markdown(String),
    /// The title and the body of the article, as text.
    Plain(String, String),
    /// No article.
    Missing,
}

/// The article view can be decided: the shown article exists, has a title and,
/// without markdown, a body.
pub open spec fn feed_view_page_ok(c: ControlsModel) -> bool {
    let s = c.state;
    (s.artikle is Some && s.feed is Some && s.channels is Some) ==> {
        let ch = s.channels.unwrap();
        &&& s.feed.unwrap() < ch.len()
        &&& s.artikle.unwrap() < ch[s.feed.unwrap() as int].0.entries@.len()
        &&& {
            let entry = ch[s.feed.unwrap() as int].0.entries@[s.artikle.unwrap() as int];
            &&& entry.title is Some
            &&& c.markdown is None ==> entry.content is Some && entry.content.unwrap() is Some
        }
    }
}

impl Controls {
    /// Decides what the article view shows: the selected article's title with
    /// its markdown text when there is one, else with its body.
    pub fn feed_view_page(&self) -> (res: FeedViewPage)
        requires
            feed_view_page_ok(self@),
        ensures
            ({
                let s = self@.state;
                if s.artikle is Some && s.feed is Some && s.channels is Some {
                    let entry = s.channels.unwrap()[s.feed.unwrap() as int].0.entries@[s.artikle.unwrap() as int];
                    if self@.markdown is Some {
                        (res matches FeedViewPage::Markdown(t) && entry.title == Some(t))
                    } else {
                        (res matches FeedViewPage::Plain(t, b) && entry.title == Some(t)
                            && entry.content == Some(Some(b)))
                    }
                } else {
                    res is Missing
                }
            }),
    {
        match (self.state.artikle, self.state.feed, &self.state.channels) {
            (Some(artikle), Some(feed), Some(channels)) => {
                let entry = &channels[feed].0.entries[artikle];
                let title = match &entry.title {
                    Some(t) => t.clone(),
                    None => String::new(),
                };
                if self.markdown.is_some() {
                    FeedViewPage::Markdown(title)
                } else {
                    let body = match &entry.content {
                        Some(Some(b)) => b.clone(),
                        _ => String::new(),
                    };
                    FeedViewPage::Plain(title, body)
                }
            },
            _ => FeedViewPage::Missing,
        }
    }
}


/// A row of the page that manages feeds.
#[derive(Clone, Debug)]
pub enum ManageRow {
    /// An online feed: its name and its position among the online feeds.
    Online(String, usize),
    /// A feed file of the repository: its file name and its path.
    Offline(String, String),
    /// An entry of the feeds directory that could not be read.
    Unreadable,
}

impl ManageRow {
    /// The message of the row's remove button, where it has one.
    pub fn remove_message(&self) -> (res: Option<SettingsM>)
        ensures
            match self {
                ManageRow::Online(_, num) => res matches Some(SettingsM::RemoveOnline(n)) && n == num,
                ManageRow::Offline(_, path) => res matches Some(SettingsM::RemoveOffline(p)) && p@ == path@,
                ManageRow::Unreadable => res is None,
            },
    {
        match self {
            ManageRow::Online(_, num) => Some(SettingsM::RemoveOnline(*num)),
            ManageRow::Offline(_, path) => Some(SettingsM::RemoveOffline(path.clone())),
            ManageRow::Unreadable => None,
        }
    }
}

/// Row `i` of `rows` is the online feed at position `i` of `online`.
pub open spec fn online_row(rows: Seq<ManageRow>, online: Seq<(Seq<char>, Seq<char>)>, i: int) -> bool {
    rows[i] matches ManageRow::Online(name, num) && name@ == online[i].0 && num == i
}

/// Row `k` of `rows` shows `file`, an entry of the feeds directory.
pub open spec fn file_row(rows: Seq<ManageRow>, k: int, file: Option<(String, String)>) -> bool {
    match file {
        Some((name, path)) => rows[k] matches ManageRow::Offline(n, p) && n@ == name@ && p@ == path@,
        None => rows[k] is Unreadable,
    }
}

/// The rows of the page that manages feeds: the online feeds in order, then
/// the entries of the feeds directory (file name and path, or `None` for one
/// that could not be read) in the order given.
pub fn manage_rows(online: &OnlineFeeds, files: &Vec<Option<(String, String)>>) -> (res: Vec<ManageRow>)
    ensures
        res@.len() == online@.len() + files@.len(),
        forall|i: int| 0 <= i < online@.len() ==> #[trigger] online_row(res@, online@, i),
        forall|j: int| 0 <= j < files@.len() ==> #[trigger] file_row(res@, online@.len() + j, files@[j]),
{
    let mut rows: Vec<ManageRow> = Vec::new();
    let mut i: usize = 0;
    while i < online.urls.len()
        invariant
            i <= online.urls@.len(),
            online@.len() == online.urls@.len(),
            rows@.len() == i,
            forall|k: int| 0 <= k < i ==> #[trigger] online_row(rows@, online@, k),
        decreases online.urls@.len() - i,
    {
        assert(online@[i as int].0 == online.urls@[i as int].0@);
        let ghost before = rows@;
        rows.push(ManageRow::Online(online.urls[i].0.clone(), i));
        assert forall|k: int| 0 <= k < i + 1 implies #[trigger] online_row(rows@, online@, k) by {
            if k < i {
                assert(online_row(before, online@, k));
                assert(rows@[k] == before[k]);
            }
        }
        i += 1;
    }
    let mut j: usize = 0;
    while j < files.len()
        invariant
            j <= files@.len(),
            online@.len() == online.urls@.len(),
            rows@.len() == online@.len() + j,
            forall|k: int| 0 <= k < online@.len() ==> #[trigger] online_row(rows@, online@, k),
            forall|k: int| 0 <= k < j ==> #[trigger] file_row(rows@, online@.len() + k, files@[k]),
        decreases files@.len() - j,
    {
        let row = match &files[j] {
            Some((name, path)) => ManageRow::Offline(name.clone(), path.clone()),
            None => ManageRow::Unreadable,
        };
        let ghost before = rows@;
        rows.push(row);
        assert(rows@.drop_last() == before);
        assert forall|k: int| 0 <= k < online@.len() implies #[trigger] online_row(rows@, online@, k) by {
            assert(online_row(before, online@, k));
            assert(rows@[k] == before[k]);
        }
        assert forall|k: int| 0 <= k < j + 1 implies #[trigger] file_row(rows@, online@.len() + k, files@[k]) by {
            if k < j {
                assert(file_row(before, online@.len() + k, files@[k]));
                assert(rows@[online@.len() + k] == before[online@.len() + k]);
            }
        }
        j += 1;
    }
    rows
}

/// What the settings area shows.
#[derive(Clone, Debug)]
pub enum SettingsPage {
    /// The page that adds an online feed.
    AddUrl,
    /// The feeds to manage, each with a remove button.
    ManageFeeds(Vec<ManageRow>),
    /// The page that sets the repository.
    Repo,
    /// The main page: the browser switch, the theme, the language, and the
    /// recorded errors when there are any.
    Normal { browser: bool, theme: Option<Them>, lang: Option<Language>, errors: Option<Vec<String>> },
}

impl Uniquiz {
    /// Decides what the settings area shows, given the entries of the feeds
    /// directory of the repository (see `manage_rows`).
    pub fn settings_page(&self, files: &Vec<Option<(String, String)>>) -> (res: SettingsPage)
        ensures
            match self.sett {
                Settings::AddUrl => res is AddUrl,
                Settings::Repo => res is Repo,
                Settings::ManageFeeds => res matches SettingsPage::ManageFeeds(rows) && {
                    &&& rows@.len() == self.online_feeds@.len() + files@.len()
                    &&& forall|i: int| 0 <= i < self.online_feeds@.len() ==> #[trigger] online_row(rows@, self.online_feeds@, i)
                    &&& forall|j: int| 0 <= j < files@.len() ==> #[trigger] file_row(rows@, self.online_feeds@.len() + j, files@[j])
                },
                Settings::Normal => res matches SettingsPage::Normal { browser, theme, lang, errors } && {
                    &&& browser == self.settings.browser
                    &&& theme == self.settings.theme
                    &&& lang == self.settings.lang
                    &&& if self.error@.len() == 0 {
                        errors is None
                    } else {
                        errors matches Some(e) && e.deep_view() == self.error.deep_view()
                    }
                },
            },
    {
        match self.sett {
            Settings::AddUrl => SettingsPage::AddUrl,
            Settings::Repo => SettingsPage::Repo,
            Settings::ManageFeeds => SettingsPage::ManageFeeds(manage_rows(&self.online_feeds, files)),
            Settings::Normal => {
                let errors = if self.error.len() == 0 {
                    None
                } else {
                    Some(copy_texts(&self.error))
                };
                SettingsPage::Normal {
                    browser: self.settings.browser,
                    theme: self.settings.theme,
                    lang: self.settings.lang,
                    errors,
                }
            },
        }
    }
}


/// The buttons of the settings area.
#[derive(Clone, Copy, Debug, PartialEq, Eq, Structural)]
pub enum SettingsButton {
    /// `Add` (of a feed, an online feed or a repository).
    Add,
    /// The paste button of the url field.
    PasteUrl,
    /// The paste button of the name or key field.
    PasteName,
    /// `Now` beside `Refresh`.
    Refresh,
    /// `Clear` beside `Progress`.
    ClearProgress,
    /// `Manage` beside `Feeds`.
    Manage,
    /// `now` beside `Change Repo`.
    ChangeRepo,
    /// `Clear` beside `Errors`.
    ClearErrors,
}

impl SettingsPage {
    /// The message of a button of the page, `None` where the page has no such
    /// button.
    pub fn button_message(&self, b: SettingsButton) -> (res: Option<Message>)
        ensures
            match self {
                SettingsPage::AddUrl => match b {
                    SettingsButton::Add => res matches Some(Message::Add(AddM::Add)),
                    SettingsButton::PasteUrl => res matches Some(Message::Add(AddM::PasteUrl)),
                    SettingsButton::PasteName => res matches Some(Message::Add(AddM::PasteName)),
                    _ => res is None,
                },
                SettingsPage::ManageFeeds(_) => match b {
                    SettingsButton::Add => res matches Some(Message::Settings(SettingsM::AddUrl)),
                    _ => res is None,
                },
                SettingsPage::Repo => match b {
                    SettingsButton::Add => res matches Some(Message::Settings(SettingsM::AddRepo)),
                    SettingsButton::PasteUrl => res matches Some(Message::Settings(SettingsM::PasteUrl)),
                    SettingsButton::PasteName => res matches Some(Message::Settings(SettingsM::PasteSsh)),
                    _ => res is None,
                },
                SettingsPage::Normal { errors, .. } => match b {
                    SettingsButton::Refresh => res matches Some(Message::Refresh(Ok(()))),
                    SettingsButton::ClearProgress => res matches Some(Message::Settings(SettingsM::ResetProgress)),
                    SettingsButton::Manage => res matches Some(Message::Settings(SettingsM::ManageFeeds)),
                    SettingsButton::ChangeRepo => res matches Some(Message::Settings(SettingsM::RepoPage)),
                    SettingsButton::ClearErrors => if errors is Some {
                        res matches Some(Message::Settings(SettingsM::ResetErrors))
                    } else {
                        res is None
                    },
                    _ => res is None,
                },
            },
    {
        match self {
            SettingsPage::AddUrl => match b {
                SettingsButton::Add => Some(Message::Add(AddM::Add)),
                SettingsButton::PasteUrl => Some(Message::Add(AddM::PasteUrl)),
                SettingsButton::PasteName => Some(Message::Add(AddM::PasteName)),
                _ => None,
            },
            SettingsPage::ManageFeeds(_) => match b {
                SettingsButton::Add => Some(Message::Settings(SettingsM::AddUrl)),
                _ => None,
            },
            SettingsPage::Repo => match b {
                SettingsButton::Add => Some(Message::Settings(SettingsM::AddRepo)),
                SettingsButton::PasteUrl => Some(Message::Settings(SettingsM::PasteUrl)),
                SettingsButton::PasteName => Some(Message::Settings(SettingsM::PasteSsh)),
                _ => None,
            },
            SettingsPage::Normal { errors, .. } => match b {
                SettingsButton::Refresh => Some(Message::Refresh(Ok(()))),
                SettingsButton::ClearProgress => Some(Message::Settings(SettingsM::ResetProgress)),
                SettingsButton::Manage => Some(Message::Settings(SettingsM::ManageFeeds)),
                SettingsButton::ChangeRepo => Some(Message::Settings(SettingsM::RepoPage)),
                SettingsButton::ClearErrors => if errors.is_some() {
                    Some(Message::Settings(SettingsM::ResetErrors))
                } else {
                    None
                },
                _ => None,
            },
        }
    }
}

} // verus!
