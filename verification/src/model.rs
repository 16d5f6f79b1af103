//! The plain data that the reader keeps: feeds, reading progress, the list of
//! subscribed online feeds and the window state.
use vstd::prelude::*;

verus! {

/// One article of a feed, holding what the reader reads of it.
#[derive(Clone, Debug)]
pub struct Entry {
    pub id: String,
    pub title: Option<String>,
    /// Time of the last update: seconds since the epoch and the sub-second nanoseconds.
    pub updated: Option<(i64, u32)>,
    /// The `href` of each link, in document order.
    pub links: Vec<String>,
    /// `Some(body)` when the entry has a content element; the body itself may be absent.
    pub content: Option<Option<String>>,
}

/// A parsed feed, holding what the reader reads of it.
#[derive(Clone, Debug)]
pub struct Feed {
    pub id: String,
    pub title: Option<String>,
    /// The `href` of each link of the feed, in document order.
    pub links: Vec<String>,
    pub entries: Vec<Entry>,
}

/// Reading progress: for each feed id, the ids of the articles that were read.
#[derive(Clone, Debug)]
pub struct Progress {
    pub read: Vec<(String, Vec<String>)>,
}

/// The settings page that is shown when the settings are open.
#[derive(Clone, Copy, Debug, PartialEq, Eq, Structural)]
pub enum Settings {
    Normal,
    Repo,
    AddUrl,
    ManageFeeds,
}

/// What the article area shows.
#[derive(Clone, Copy, Debug, PartialEq, Eq, Structural)]
pub enum Nav {
    /// The unread articles of all feeds, newest first.
    Mixed,
    /// The list of feeds.
    All,
    /// One feed, by its index.
    Single(usize),
    /// Nothing selected.
    Blank,
}

/// The online feeds that are downloaded on refresh: pairs of name and url.
#[derive(Clone, Debug)]
pub struct OnlineFeeds {
    pub urls: Vec<(String, String)>,
}

/// The state of the window.
#[derive(Debug)]
pub struct Window {
    pub keyboard: bool,
    pub title: String,
    pub settings_open: bool,
    pub sideselect: bool,
    pub sidebar: bool,
    pub tab: (usize, Nav),
}

/// The loading state of optional modules.
#[derive(Clone, Debug)]
pub struct Load {
    pub err: Option<String>,
}

/// The repository that holds feeds and progress.
#[derive(Clone, Debug)]
pub struct GitState {
    pub repo: String,
    pub ssh_priv: String,
}

impl View for Progress {
    type V = Seq<(Seq<char>, Seq<Seq<char>>)>;

    open spec fn view(&self) -> Seq<(Seq<char>, Seq<Seq<char>>)> {
        self.read.deep_view()
    }
}

impl View for OnlineFeeds {
    type V = Seq<(Seq<char>, Seq<char>)>;

    open spec fn view(&self) -> Seq<(Seq<char>, Seq<char>)> {
        self.urls.deep_view()
    }
}

impl Default for Settings {
    fn default() -> (res: Self)
        ensures
            res == Settings::Normal,
    {
        Settings::Normal
    }
}

impl Default for Nav {
    fn default() -> (res: Self)
        ensures
            res == Nav::Mixed,
    {
        Nav::Mixed
    }
}

impl Default for Progress {
    fn default() -> (res: Self)
        ensures
            res@.len() == 0,
    {
        Progress { read: Vec::new() }
    }
}

impl Default for OnlineFeeds {
    fn default() -> (res: Self)
        ensures
            res@.len() == 0,
    {
        OnlineFeeds { urls: Vec::new() }
    }
}

impl Default for Window {
    fn default() -> (res: Self)
        ensures
            !res.keyboard,
            res.title@.len() == 0,
            !res.settings_open,
            !res.sideselect,
            !res.sidebar,
            res.tab == (0usize, Nav::Mixed),
    {
        Window {
            keyboard: false,
            title: String::new(),
            settings_open: false,
            sideselect: false,
            sidebar: false,
            tab: (0, Nav::Mixed),
        }
    }
}

impl Default for GitState {
    fn default() -> (res: Self)
        ensures
            res.repo@.len() == 0,
            res.ssh_priv@.len() == 0,
    {
        GitState { repo: String::new(), ssh_priv: String::new() }
    }
}

} // verus!

verus! {

/// The value of the window state.
pub struct WindowModel {
    pub keyboard: bool,
    pub title: Seq<char>,
    pub settings_open: bool,
    pub sideselect: bool,
    pub sidebar: bool,
    pub tab: (usize, Nav),
}

impl View for Window {
    type V = WindowModel;

    open spec fn view(&self) -> WindowModel {
        WindowModel {
            keyboard: self.keyboard,
            title: self.title@,
            settings_open: self.settings_open,
            sideselect: self.sideselect,
            sidebar: self.sidebar,
            tab: self.tab,
        }
    }
}

} // verus!
