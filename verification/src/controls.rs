//! The state of the reader and how each message changes it.
//!
//! `Controls::update` takes a message and the current texts of the two input
//! fields, changes the state and returns the effects that the caller carries
//! out (writing files, downloading, opening the browser, ...). Effects that
//! write a record write the record as the state holds it after the update.
use vstd::prelude::*;
use crate::comps::sidebar::SidebarM;
use crate::model::{Feed, GitState, Load, Nav, OnlineFeeds, Progress, Settings, Window, WindowModel};
use crate::pages::add_url::AddM;
use crate::pages::artikle_list::{html_to_markdown, spec_markdown_of, ArtikleListM};
use crate::pages::feed_list::{
    is_read, law_mark_read_counts, lemma_mark_read, lemma_read_all,
    after_mark, after_read_all, all_countable, artikles_unread, feeds_unread, feeds_with_unread,
    mark_read, read_all, unread_countable, unread_of, FeedListM,
};
use crate::pages::feed_view::FeedViewM;
use crate::per::Imag;
use crate::settings::{Language, PSettings, PSettingsModel, SettingsM, Them};
use crate::text::{trim, trim_spec};

verus! {

/// The state of the reader.
#[derive(Debug)]
pub struct Uniquiz {
    pub sett: Settings,
    pub feed: Option<usize>,
    pub artikle: Option<usize>,
    pub unread_expanded: bool,
    pub all_expanded: bool,
    pub url: String,
    pub channels: Option<Vec<(Feed, Imag)>>,
    pub modules: Load,
    pub window: Window,
    pub read: Progress,
    pub online_feeds: OnlineFeeds,
    pub error: Vec<String>,
    pub settings: PSettings,
}

/// The value of the reader's state.
pub struct UniquizModel {
    pub sett: Settings,
    pub feed: Option<usize>,
    pub artikle: Option<usize>,
    pub unread_expanded: bool,
    pub all_expanded: bool,
    pub url: Seq<char>,
    pub channels: Option<Seq<(Feed, Imag)>>,
    pub load_err: Option<Seq<char>>,
    pub window: WindowModel,
    pub read: Seq<(Seq<char>, Seq<Seq<char>>)>,
    pub online: Seq<(Seq<char>, Seq<char>)>,
    pub error: Seq<Seq<char>>,
    pub settings: PSettingsModel,
}

impl View for Uniquiz {
    type V = UniquizModel;

    open spec fn view(&self) -> UniquizModel {
        UniquizModel {
            sett: self.sett,
            feed: self.feed,
            artikle: self.artikle,
            unread_expanded: self.unread_expanded,
            all_expanded: self.all_expanded,
            url: self.url@,
            channels: match self.channels {
                Some(c) => Some(c@),
                None => None,
            },
            load_err: match self.modules.err {
                Some(e) => Some(e@),
                None => None,
            },
            window: self.window@,
            read: self.read@,
            online: self.online_feeds@,
            error: self.error.deep_view(),
            settings: self.settings@,
        }
    }
}

/// The reader: its state, the article text to show (as markdown) and the
/// theme in use.
#[derive(Debug)]
pub struct Controls {
    pub markdown: Option<String>,
    pub theme: Them,
    pub state: Uniquiz,
}

/// The value of the reader.
pub struct ControlsModel {
    pub markdown: Option<Seq<char>>,
    pub theme: Them,
    pub state: UniquizModel,
}

impl View for Controls {
    type V = ControlsModel;

    open spec fn view(&self) -> ControlsModel {
        ControlsModel {
            markdown: match self.markdown {
                Some(m) => Some(m@),
                None => None,
            },
            theme: self.theme,
            state: self.state@,
        }
    }
}

/// The texts of the two input fields: the name (or key) field, numbered 0,
/// and the url field, numbered 1.
#[derive(Clone, Debug)]
pub struct Editors {
    pub name: String,
    pub url: String,
}

/// What an action on an input field is.
#[derive(Clone, Copy, Debug, PartialEq, Eq, Structural)]
pub enum EditorAction {
    Click,
    SelectWord,
    Edit,
    Other,
}

/// What the feeds directory scan and the load of the records gave back: the
/// feeds with their icons and the feeds without an icon yet; the reading
/// progress, if it was read; the online feeds.
pub type Loaded = ((Option<Vec<(Feed, Imag)>>, Option<Vec<(String, String)>>), Option<Progress>, OnlineFeeds);

/// Messages of the reader.
#[derive(Debug)]
pub enum Message {
    Sidebar(SidebarM),
    Loaded((Loaded, bool)),
    Error(String),
    Refresh(Result<(), String>),
    Boot,
    /// Whether the feeds directory and the repository directory exist.
    Directories(bool, bool),
    Clipboard(String, u8),
    FeedView(FeedViewM),
    ArtikleList(ArtikleListM),
    Side,
    FeedList(FeedListM),
    Add(AddM),
    Back,
    Exit,
    Nothing,
    EditorAction(EditorAction, u8),
    ToggleSettings,
    Settings(SettingsM),
}

/// What the caller carries out after an update.
#[derive(Debug, PartialEq)]
pub enum Effect {
    /// Look whether the feeds and repository directories exist, and answer with
    /// `Message::Directories`.
    CheckDirectories,
    /// Create the feeds directory.
    CreateFeedsDir,
    /// Pull the repository (when `pull` is set, with the repository of the
    /// settings), download the online feeds, read the feeds, the progress and
    /// the online feeds, and answer with `Message::Loaded` carrying `after_pull`.
    Reload { pull: bool, after_pull: bool },
    /// Download the icons of these feeds (title and link), read the feeds and
    /// the online feeds again, and answer with `Message::Loaded` carrying `true`
    /// and no progress.
    FetchIcons(Vec<(String, String)>),
    /// Paste the text into the input field.
    PasteIntoEditor(u8, String),
    /// Apply the action to the input field; when the flag is set, report its
    /// new text with `AddM::ChangeName` (field 0) or `AddM::ChangeUrl` (field 1).
    EditEditor(u8, bool),
    ShowKeyboard,
    HideKeyboard,
    /// Read the clipboard into the input field.
    ClipboardRead(u8),
    /// Empty both input fields.
    ResetEditors,
    /// Close the window.
    CloseWindow,
    /// Open the url in the browser.
    OpenUrl(String),
    /// Write the online feeds of the state to the repository, then answer with
    /// `Message::Refresh(Ok(()))`.
    SaveOnlineFeeds,
    /// Write an empty list of online feeds to the repository, then answer with
    /// `Message::Refresh(Ok(()))`.
    ClearOnlineFeeds,
    /// Write the progress of the state to the repository.
    SaveProgress,
    /// Write an empty progress record to the repository, then answer with
    /// `Message::Refresh(Ok(()))`.
    ClearProgress,
    /// Delete the feed file and commit, then answer with `Message::Refresh(Ok(()))`.
    RemoveFeedFile(String),
    /// Write the settings of the state to `config.ron`.
    SaveSettings,
    /// Make the language the one that translations use.
    SetLanguage(Language),
    /// Delete the local repository directory, if there is one.
    RemoveRepoDir,
    /// Write the settings, clone the repository of the settings, and answer with
    /// `Message::Refresh` carrying the outcome of the clone.
    CloneRepo,
}

/// The state at start, with the given stored settings: the main settings
/// page (closed), no feed, article, progress, online feed or error, the
/// sidebar sections folded, no feeds loaded yet, and the mixed list of the
/// first tab.
pub open spec fn start_state(settings: PSettingsModel) -> UniquizModel {
    UniquizModel {
        sett: Settings::Normal,
        feed: None,
        artikle: None,
        unread_expanded: false,
        all_expanded: false,
        url: Seq::<char>::empty(),
        channels: None,
        load_err: None,
        window: WindowModel {
            keyboard: false,
            title: Seq::<char>::empty(),
            settings_open: false,
            sideselect: false,
            sidebar: false,
            tab: (0usize, Nav::Mixed),
        },
        read: Seq::empty(),
        online: Seq::empty(),
        error: Seq::empty(),
        settings: settings,
    }
}

impl Uniquiz {
    /// The state at start, with the given stored settings (see `start_state`).
    pub fn with_settings(settings: PSettings) -> (res: Uniquiz)
        ensures
            res@ == start_state(settings@),
    {
        let window = Window::default();
        let read = Progress::default();
        let online_feeds = OnlineFeeds::default();
        let error: Vec<String> = Vec::new();
        let url = String::new();
        assert(window.title@ =~= Seq::<char>::empty());
        assert(read@ =~= Seq::empty());
        assert(online_feeds@ =~= Seq::empty());
        assert(error.deep_view() =~= Seq::empty());
        assert(url@ =~= Seq::<char>::empty());
        Uniquiz {
            sett: Settings::Normal,
            error,
            unread_expanded: false,
            all_expanded: false,
            online_feeds,
            read,
            artikle: None,
            feed: None,
            channels: None,
            url,
            modules: Load { err: None },
            window,
            settings,
        }
    }
}

/// The message that the back button of a tab sends: none.
pub fn back_message(tab: u8) -> (res: Message)
    ensures
        res is Nothing,
{
    Message::Nothing
}

// ---------------------------------------------------------------------------
// Transitions
// ---------------------------------------------------------------------------

/// The state after a message of the sidebar.
pub open spec fn sidebar_step(s: UniquizModel, m: SidebarM) -> UniquizModel {
    match m {
        SidebarM::ExpandAll => UniquizModel { all_expanded: !s.all_expanded, ..s },
        SidebarM::ExpandUnread => UniquizModel { unread_expanded: !s.unread_expanded, ..s },
        SidebarM::Select(tab) => UniquizModel {
            window: WindowModel { settings_open: false, sideselect: true, tab: tab, ..s.window },
            artikle: None,
            feed: match tab.1 {
                Nav::Single(i) => Some(i),
                _ => None,
            },
            ..s
        },
    }
}

/// The state after the settings button: it opens or closes the settings and
/// brings the content forward on small screens.
pub open spec fn toggle_settings_step(w: WindowModel) -> WindowModel {
    if w.sideselect && w.settings_open {
        WindowModel { settings_open: false, ..w }
    } else if !w.sideselect && w.settings_open {
        WindowModel { sideselect: true, ..w }
    } else {
        WindowModel { sideselect: true, settings_open: !w.settings_open, ..w }
    }
}

/// The state after the sidebar button.
pub open spec fn side_step(w: WindowModel) -> WindowModel {
    if w.sideselect {
        WindowModel { sideselect: false, sidebar: true, ..w }
    } else {
        WindowModel { sidebar: !w.sidebar, ..w }
    }
}

/// The state after the back button: in the settings, one page up (closing
/// the settings from the main settings page); in the first two tabs, from an
/// article back to its feed, or from a feed back to the list of all feeds.
pub open spec fn back_step(s: UniquizModel) -> UniquizModel {
    if s.window.settings_open {
        match s.sett {
            Settings::ManageFeeds | Settings::Repo => UniquizModel { sett: Settings::Normal, ..s },
            Settings::Normal => UniquizModel {
                window: WindowModel { settings_open: false, ..s.window },
                ..s
            },
            Settings::AddUrl => UniquizModel { sett: Settings::ManageFeeds, ..s },
        }
    } else if s.window.tab.0 == 0 || s.window.tab.0 == 1 {
        if s.artikle.is_none() && s.feed.is_some() {
            UniquizModel {
                feed: None,
                window: WindowModel { tab: (s.window.tab.0, Nav::All), ..s.window },
                ..s
            }
        } else if s.feed.is_some() && s.artikle.is_some() {
            UniquizModel { artikle: None, ..s }
        } else {
            s
        }
    } else {
        s
    }
}

/// The feeds and the progress of a `Loaded` message, as the state holds them
/// after it.
pub open spec fn channels_model(c: Option<Vec<(Feed, Imag)>>) -> Option<Seq<(Feed, Imag)>> {
    match c {
        Some(v) => Some(v@),
        None => None,
    }
}

/// The state after the feeds were loaded: the feeds, the online feeds and the
/// progress (when one was read) replace the old ones, and the list of all
/// feeds is shown when no feed has an unread article.
pub open spec fn loaded_state(s: UniquizModel, l: Loaded) -> UniquizModel {
    let read = match l.1 {
        Some(p) => p@,
        None => s.read,
    };
    let channels = channels_model((l.0).0);
    UniquizModel {
        online: l.2@,
        channels: channels,
        read: read,
        window: match channels {
            Some(ch) => if feeds_with_unread(read, ch) < 1 {
                WindowModel { tab: (1usize, s.window.tab.1), ..s.window }
            } else {
                s.window
            },
            None => s.window,
        },
        ..s
    }
}

/// The effects after the feeds were loaded: after a pull, the download of the
/// missing icons (if any are missing); before it, a reload with a pull.
pub open spec fn loaded_effects(l: Loaded, after_pull: bool) -> Seq<Effect> {
    if after_pull {
        match (l.0).1 {
            Some(icons) => seq![Effect::FetchIcons(icons)],
            None => seq![],
        }
    } else {
        seq![Effect::Reload { pull: true, after_pull: true }]
    }
}

/// A loaded message can be taken in: the unread articles of every loaded feed
/// can be counted with the progress that the state will hold.
pub open spec fn loaded_ok(s: UniquizModel, l: Loaded) -> bool {
    let t = loaded_state(s, l);
    match t.channels {
        Some(ch) => all_countable(t.read, ch),
        None => true,
    }
}

/// The state after a message of the feed list.
pub open spec fn feed_list_step(s: UniquizModel, m: FeedListM) -> UniquizModel {
    match m {
        FeedListM::ReadAll(num) => match s.channels {
            Some(ch) => {
                let read = after_read_all(s.read, ch[num as int].0);
                UniquizModel {
                    read: read,
                    window: if feeds_with_unread(read, ch) < 1 {
                        WindowModel { tab: (1usize, Nav::Blank), ..s.window }
                    } else {
                        s.window
                    },
                    ..s
                }
            },
            None => s,
        },
        FeedListM::Select(num) => UniquizModel { feed: Some(num), ..s },
        FeedListM::Remove(_) => s,
    }
}

/// A message of the feed list can be taken in: the feed to read exists and
/// the unread articles can be counted afterwards.
pub open spec fn feed_list_ok(s: UniquizModel, m: FeedListM) -> bool {
    match m {
        FeedListM::ReadAll(num) => match s.channels {
            Some(ch) => num < ch.len() && all_countable(after_read_all(s.read, ch[num as int].0), ch),
            None => true,
        },
        _ => true,
    }
}

/// The feed that an article selection is about.
pub open spec fn selected_feed(s: UniquizModel, given: Option<usize>) -> int {
    match given {
        Some(n) => n as int,
        None => s.feed.unwrap() as int,
    }
}

/// The progress, tab and selected feed after an article was selected, before
/// it is shown: when it was unread, it is marked read, and when that was the
/// last unread article of its feed in the first tab, the feed is left (for the
/// list of all feeds when no feed has an unread article any more).
pub open spec fn select_read_state(s: UniquizModel, given: Option<usize>, art: usize, unread: bool) -> UniquizModel {
    let ch = s.channels.unwrap();
    let feed = ch[selected_feed(s, given)].0;
    let entry = feed.entries@[art as int];
    if unread {
        let read = after_mark(s.read, feed.id@, entry.id@);
        if unread_of(read, feed) < 1 && s.window.tab.0 == 0 {
            if feeds_with_unread(read, ch) < 1 {
                UniquizModel {
                    read: read,
                    window: WindowModel { tab: (1usize, Nav::Blank), ..s.window },
                    feed: None,
                    ..s
                }
            } else {
                UniquizModel {
                    read: read,
                    window: WindowModel { tab: (0usize, s.window.tab.1), ..s.window },
                    feed: None,
                    ..s
                }
            }
        } else {
            UniquizModel { read: read, ..s }
        }
    } else {
        s
    }
}

/// The reader after an article was selected: it is opened in the browser when
/// the settings ask for that or when it has no content; otherwise its content
/// becomes the markdown to show and it is the selected article. The progress
/// is written in either case.
pub open spec fn artikle_step(c: ControlsModel, m: ArtikleListM) -> (ControlsModel, Seq<Effect>) {
    match m {
        ArtikleListM::Select(given, art, unread) => {
            if c.state.channels is Some {
                let s = select_read_state(c.state, given, art, unread);
                let ch = c.state.channels.unwrap();
                let entry = ch[selected_feed(c.state, given)].0.entries@[art as int];
                if c.state.settings.browser {
                    (
                        ControlsModel { state: s, ..c },
                        seq![Effect::OpenUrl(entry.links@[0]), Effect::SaveProgress],
                    )
                } else if entry.content is Some {
                    (
                        ControlsModel {
                            markdown: Some(spec_markdown_of(entry.content.unwrap().unwrap()@)),
                            state: UniquizModel {
                                artikle: Some(art),
                                feed: match given {
                                    Some(n) => Some(n),
                                    None => s.feed,
                                },
                                ..s
                            },
                            ..c
                        },
                        seq![Effect::SaveProgress],
                    )
                } else {
                    (
                        ControlsModel { state: s, ..c },
                        seq![Effect::OpenUrl(entry.links@[0]), Effect::SaveProgress],
                    )
                }
            } else {
                (c, seq![])
            }
        },
    }
}

/// An article selection can be taken in: the feed and the article exist, the
/// unread articles can be counted where they are counted, the article has a
/// link where it is opened in the browser and a body where its content is
/// shown, and a repository is set.
pub open spec fn artikle_ok(c: ControlsModel, m: ArtikleListM) -> bool {
    match m {
        ArtikleListM::Select(given, art, unread) => {
            match c.state.channels {
                Some(ch) => {
                    &&& (given is Some || c.state.feed is Some)
                    &&& 0 <= selected_feed(c.state, given) < ch.len()
                    &&& art < ch[selected_feed(c.state, given)].0.entries@.len()
                    &&& {
                        let feed = ch[selected_feed(c.state, given)].0;
                        let entry = feed.entries@[art as int];
                        let read = after_mark(c.state.read, feed.id@, entry.id@);
                        &&& unread ==> unread_countable(read, feed)
                        &&& (unread && unread_of(read, feed) < 1 && c.state.window.tab.0 == 0) ==> all_countable(read, ch)
                        &&& (c.state.settings.browser || entry.content is None) ==> entry.links@.len() > 0
                        &&& (!c.state.settings.browser && entry.content is Some) ==> entry.content.unwrap() is Some
                    }
                    &&& c.state.settings.git is Some
                },
                None => true,
            }
        },
    }
}

/// The state and effects after a message of the page that adds a feed: the
/// name and the trimmed url of the input fields are added to the online feeds,
/// the fields are emptied and the online feeds are written.
pub open spec fn add_step(s: UniquizModel, m: AddM, name: Seq<char>, url: Seq<char>) -> (UniquizModel, Seq<Effect>) {
    match m {
        AddM::PasteName => (s, seq![Effect::ClipboardRead(0)]),
        AddM::PasteUrl => (s, seq![Effect::ClipboardRead(1)]),
        AddM::Add => (
            UniquizModel { online: s.online.push((name, trim_spec(url))), ..s },
            seq![Effect::ResetEditors, Effect::SaveOnlineFeeds],
        ),
        AddM::ChangeUrl(_) => (s, seq![]),
        AddM::ChangeName(_) => (s, seq![]),
    }
}

/// The online feeds after the one at `num` was taken out, the last one taking
/// its place.
pub open spec fn swap_removed<T>(v: Seq<T>, num: int) -> Seq<T> {
    v.update(num, v.last()).drop_last()
}

/// The reader and effects after a message of the settings page.
pub open spec fn settings_step(c: ControlsModel, m: SettingsM, name: Seq<char>, url: Seq<char>) -> (ControlsModel, Seq<Effect>) {
    let s = c.state;
    match m {
        SettingsM::RemoveOnline(num) => (
            ControlsModel { state: UniquizModel { online: swap_removed(s.online, num as int), ..s }, ..c },
            seq![Effect::ClearOnlineFeeds],
        ),
        SettingsM::AddUrl => (ControlsModel { state: UniquizModel { sett: Settings::AddUrl, ..s }, ..c }, seq![]),
        SettingsM::RemoveOffline(path) => (c, seq![Effect::RemoveFeedFile(path)]),
        SettingsM::ResetErrors => (ControlsModel { state: UniquizModel { error: seq![], ..s }, ..c }, seq![]),
        SettingsM::ResetProgress => (c, seq![Effect::ClearProgress]),
        SettingsM::ManageFeeds => (
            ControlsModel { state: UniquizModel { sett: Settings::ManageFeeds, ..s }, ..c },
            seq![],
        ),
        SettingsM::ResetFeeds => (c, seq![Effect::ClearOnlineFeeds]),
        SettingsM::LangChange(lang) => (
            ControlsModel {
                state: UniquizModel { settings: PSettingsModel { lang: Some(lang), ..s.settings }, ..s },
                ..c
            },
            seq![Effect::SetLanguage(lang), Effect::SaveSettings],
        ),
        SettingsM::CheckboxBrowser(b) => (
            ControlsModel {
                state: UniquizModel { settings: PSettingsModel { browser: b, ..s.settings }, ..s },
                ..c
            },
            seq![Effect::SaveSettings],
        ),
        SettingsM::ThemeChange(t) => (
            ControlsModel {
                theme: t,
                state: UniquizModel { settings: PSettingsModel { theme: Some(t), ..s.settings }, ..s },
                ..c
            },
            seq![Effect::SaveSettings],
        ),
        SettingsM::RepoPage => (ControlsModel { state: UniquizModel { sett: Settings::Repo, ..s }, ..c }, seq![]),
        SettingsM::PasteUrl => (c, seq![Effect::ClipboardRead(1)]),
        SettingsM::PasteSsh => (c, seq![Effect::ClipboardRead(0)]),
        SettingsM::AddRepo => (
            ControlsModel {
                state: UniquizModel {
                    settings: PSettingsModel { git: Some((url, name)), ..s.settings },
                    sett: Settings::Normal,
                    window: WindowModel { settings_open: false, ..s.window },
                    ..s
                },
                ..c
            },
            seq![Effect::RemoveRepoDir, Effect::ResetEditors, Effect::CloneRepo],
        ),
    }
}

/// A message of the settings page can be taken in: the online feed to remove
/// exists, and a repository is set where one is written to.
pub open spec fn settings_ok(s: UniquizModel, m: SettingsM) -> bool {
    match m {
        SettingsM::RemoveOnline(num) => num < s.online.len() && s.settings.git is Some,
        SettingsM::RemoveOffline(_) => s.settings.git is Some,
        SettingsM::ResetProgress => s.settings.git is Some,
        SettingsM::ResetFeeds => s.settings.git is Some,
        _ => true,
    }
}

/// The effects after a message of the article view: a followed link, or the
/// first link of the shown article, is opened in the browser.
pub open spec fn feed_view_effects(s: UniquizModel, m: FeedViewM) -> Seq<Effect> {
    match m {
        FeedViewM::LinkClicked(url) => seq![Effect::OpenUrl(url)],
        FeedViewM::Open => {
            if s.artikle is Some && s.feed is Some && s.channels is Some {
                seq![
                    Effect::OpenUrl(
                        s.channels.unwrap()[s.feed.unwrap() as int].0.entries@[s.artikle.unwrap() as int].links@[0],
                    ),
                ]
            } else {
                seq![]
            }
        },
    }
}

/// The shown article exists and has a link, where the article view opens it.
pub open spec fn feed_view_ok(s: UniquizModel, m: FeedViewM) -> bool {
    match m {
        FeedViewM::Open => (s.artikle is Some && s.feed is Some && s.channels is Some) ==> {
            let ch = s.channels.unwrap();
            &&& s.feed.unwrap() < ch.len()
            &&& s.artikle.unwrap() < ch[s.feed.unwrap() as int].0.entries@.len()
            &&& ch[s.feed.unwrap() as int].0.entries@[s.artikle.unwrap() as int].links@.len() > 0
        },
        _ => true,
    }
}

/// The state after the directories were looked at: without a feeds directory
/// (which is created) or without a repository, the repository settings are
/// opened; otherwise the feeds are loaded.
pub open spec fn directories_step(s: UniquizModel, feeds: bool, git: bool) -> (UniquizModel, Seq<Effect>) {
    if !feeds {
        (
            UniquizModel { sett: Settings::Repo, window: WindowModel { settings_open: true, ..s.window }, ..s },
            seq![Effect::CreateFeedsDir],
        )
    } else if !git {
        (
            UniquizModel { sett: Settings::Repo, window: WindowModel { settings_open: true, ..s.window }, ..s },
            seq![],
        )
    } else {
        (s, seq![Effect::Reload { pull: false, after_pull: false }])
    }
}

/// The effects of an action on an input field.
pub open spec fn editor_effects(a: EditorAction, editor: u8) -> Seq<Effect> {
    match a {
        EditorAction::Click => seq![Effect::ShowKeyboard],
        EditorAction::SelectWord => seq![Effect::HideKeyboard],
        EditorAction::Edit => if editor < 2 {
            seq![Effect::EditEditor(editor, true)]
        } else {
            seq![]
        },
        EditorAction::Other => if editor < 2 {
            seq![Effect::EditEditor(editor, false)]
        } else {
            seq![]
        },
    }
}

/// The reader and the effects after a message.
pub open spec fn step(c: ControlsModel, m: Message, name: Seq<char>, url: Seq<char>) -> (ControlsModel, Seq<Effect>) {
    let s = c.state;
    match m {
        Message::Sidebar(sm) => (ControlsModel { state: sidebar_step(s, sm), ..c }, seq![]),
        Message::FeedView(fm) => (c, feed_view_effects(s, fm)),
        Message::Error(e) => (ControlsModel { state: UniquizModel { error: s.error.push(e@), ..s }, ..c }, seq![]),
        Message::ArtikleList(am) => artikle_step(c, am),
        Message::Boot => (c, seq![Effect::CheckDirectories]),
        Message::Directories(feeds, git) => {
            let r = directories_step(s, feeds, git);
            (ControlsModel { state: r.0, ..c }, r.1)
        },
        Message::Refresh(res) => (
            ControlsModel {
                state: match res {
                    Ok(_) => s,
                    Err(e) => UniquizModel { error: s.error.push(e@), ..s },
                },
                ..c
            },
            seq![Effect::Reload { pull: true, after_pull: true }],
        ),
        Message::Loaded((l, after_pull)) => (
            ControlsModel { state: loaded_state(s, l), ..c },
            loaded_effects(l, after_pull),
        ),
        Message::Clipboard(text, editor) => (
            c,
            if editor < 2 {
                seq![Effect::PasteIntoEditor(editor, text)]
            } else {
                seq![]
            },
        ),
        Message::EditorAction(a, editor) => (c, editor_effects(a, editor)),
        Message::FeedList(fm) => (ControlsModel { state: feed_list_step(s, fm), ..c }, seq![]),
        Message::Add(am) => {
            let r = add_step(s, am, name, url);
            (ControlsModel { state: r.0, ..c }, r.1)
        },
        Message::Settings(sm) => settings_step(c, sm, name, url),
        Message::ToggleSettings => (
            ControlsModel { state: UniquizModel { window: toggle_settings_step(s.window), ..s }, ..c },
            seq![],
        ),
        Message::Back => (ControlsModel { state: back_step(s), ..c }, seq![]),
        Message::Exit => (c, seq![Effect::CloseWindow]),
        Message::Side => (
            ControlsModel { state: UniquizModel { window: side_step(s.window), ..s }, ..c },
            seq![],
        ),
        Message::Nothing => (c, seq![]),
    }
}

/// A message can be taken in without a failure.
pub open spec fn step_ok(c: ControlsModel, m: Message) -> bool {
    match m {
        Message::FeedView(fm) => feed_view_ok(c.state, fm),
        Message::ArtikleList(am) => artikle_ok(c, am),
        Message::Loaded((l, _)) => loaded_ok(c.state, l),
        Message::FeedList(fm) => feed_list_ok(c.state, fm),
        Message::Add(AddM::Add) => c.state.settings.git is Some,
        Message::Settings(sm) => settings_ok(c.state, sm),
        _ => true,
    }
}

} // verus!

verus! {

impl Controls {
    /// The window title.
    pub fn title(&self) -> (res: String)
        ensures
            res@ == "Unirss"@,
    {
        String::from_str("Unirss")
    }

    /// Takes in a message of the sidebar.
    pub fn update_sidebar(&mut self, m: SidebarM) -> (res: Vec<Effect>)
        ensures
            final(self)@ == (ControlsModel { state: sidebar_step(old(self)@.state, m), ..old(self)@ }),
            res@ == Seq::<Effect>::empty(),
    {
        match m {
            SidebarM::ExpandAll => {
                self.state.all_expanded = !self.state.all_expanded;
            },
            SidebarM::ExpandUnread => {
                self.state.unread_expanded = !self.state.unread_expanded;
            },
            SidebarM::Select(tab) => {
                self.state.window.settings_open = false;
                self.state.window.sideselect = true;
                self.state.window.tab = tab;
                self.state.artikle = None;
                self.state.feed = match tab.1 {
                    Nav::Single(s) => Some(s),
                    _ => None,
                };
            },
        }
        Vec::new()
    }

    /// Takes in a message of the feed list.
    pub fn update_feed_list(&mut self, m: FeedListM) -> (res: Vec<Effect>)
        requires
            feed_list_ok(old(self)@.state, m),
        ensures
            final(self)@ == (ControlsModel { state: feed_list_step(old(self)@.state, m), ..old(self)@ }),
            res@ == Seq::<Effect>::empty(),
    {
        match m {
            FeedListM::ReadAll(num) => {
                if let Some(channels) = &self.state.channels {
                    read_all(&mut self.state.read, &channels[num].0);
                    if feeds_unread(&self.state.read, channels.as_slice()) < 1 {
                        self.state.window.tab = (1, Nav::Blank);
                    }
                }
            },
            FeedListM::Select(num) => {
                self.state.feed = Some(num);
            },
            FeedListM::Remove(_) => {},
        }
        Vec::new()
    }

    /// Takes in a message of the article view.
    pub fn update_feed_view(&mut self, m: FeedViewM) -> (res: Vec<Effect>)
        requires
            feed_view_ok(old(self)@.state, m),
        ensures
            final(self)@ == old(self)@,
            res@ == feed_view_effects(old(self)@.state, m),
    {
        let mut res: Vec<Effect> = Vec::new();
        match m {
            FeedViewM::LinkClicked(url) => {
                res.push(Effect::OpenUrl(url));
            },
            FeedViewM::Open => {
                if let (Some(artikle), Some(feed), Some(channels)) = (
                    self.state.artikle,
                    self.state.feed,
                    &self.state.channels,
                ) {
                    let link = channels[feed].0.entries[artikle].links[0].clone();
                    res.push(Effect::OpenUrl(link));
                }
            },
        }
        proof {
            assert(res@ =~= feed_view_effects(old(self)@.state, m));
        }
        res
    }
}

} // verus!

verus! {

impl Controls {
    /// Takes in a message of the page that adds a feed, with the texts of the
    /// two input fields.
    pub fn update_add_url(&mut self, m: AddM, editors: &Editors) -> (res: Vec<Effect>)
        requires
            m is Add ==> old(self)@.state.settings.git is Some,
        ensures
            final(self)@ == (ControlsModel {
                state: add_step(old(self)@.state, m, editors.name@, editors.url@).0,
                ..old(self)@
            }),
            res@ == add_step(old(self)@.state, m, editors.name@, editors.url@).1,
    {
        let mut res: Vec<Effect> = Vec::new();
        match m {
            AddM::PasteName => {
                res.push(Effect::ClipboardRead(0));
            },
            AddM::PasteUrl => {
                res.push(Effect::ClipboardRead(1));
            },
            AddM::Add => {
                let name = editors.name.clone();
                let url = trim(editors.url.as_str());
                let ghost before = self.state.online_feeds@;
                self.state.online_feeds.urls.push((name, url));
                assert(self.state.online_feeds@ =~= before.push((editors.name@, trim_spec(editors.url@))));
                res.push(Effect::ResetEditors);
                res.push(Effect::SaveOnlineFeeds);
            },
            AddM::ChangeUrl(_) => {},
            AddM::ChangeName(_) => {},
        }
        proof {
            assert(res@ =~= add_step(old(self)@.state, m, editors.name@, editors.url@).1);
        }
        res
    }

    /// Takes in a message of the settings page, with the texts of the two
    /// input fields (the key in the name field, the repository in the url
    /// field).
    pub fn update_settings(&mut self, m: SettingsM, editors: &Editors) -> (res: Vec<Effect>)
        requires
            settings_ok(old(self)@.state, m),
        ensures
            (final(self)@, res@) == settings_step(old(self)@, m, editors.name@, editors.url@),
    {
        let mut res: Vec<Effect> = Vec::new();
        let ghost c = self@;
        match m {
            SettingsM::RemoveOnline(num) => {
                let ghost before = self.state.online_feeds@;
                self.state.online_feeds.urls.swap_remove(num);
                assert(self.state.online_feeds@ =~= swap_removed(before, num as int));
                res.push(Effect::ClearOnlineFeeds);
            },
            SettingsM::AddUrl => {
                self.state.sett = Settings::AddUrl;
            },
            SettingsM::RemoveOffline(path) => {
                res.push(Effect::RemoveFeedFile(path));
            },
            SettingsM::ResetErrors => {
                self.state.error = Vec::new();
                assert(self.state.error.deep_view() =~= Seq::<Seq<char>>::empty());
            },
            SettingsM::ResetProgress => {
                res.push(Effect::ClearProgress);
            },
            SettingsM::ManageFeeds => {
                self.state.sett = Settings::ManageFeeds;
            },
            SettingsM::ResetFeeds => {
                res.push(Effect::ClearOnlineFeeds);
            },
            SettingsM::LangChange(lang) => {
                self.state.settings.lang = Some(lang);
                res.push(Effect::SetLanguage(lang));
                res.push(Effect::SaveSettings);
            },
            SettingsM::CheckboxBrowser(b) => {
                self.state.settings.browser = b;
                res.push(Effect::SaveSettings);
            },
            SettingsM::ThemeChange(t) => {
                self.state.settings.theme = Some(t);
                self.theme = t;
                res.push(Effect::SaveSettings);
            },
            SettingsM::RepoPage => {
                self.state.sett = Settings::Repo;
            },
            SettingsM::PasteUrl => {
                res.push(Effect::ClipboardRead(1));
            },
            SettingsM::PasteSsh => {
                res.push(Effect::ClipboardRead(0));
            },
            SettingsM::AddRepo => {
                res.push(Effect::RemoveRepoDir);
                let ssh = editors.name.clone();
                let git_url = editors.url.clone();
                res.push(Effect::ResetEditors);
                self.state.settings.git = Some(GitState { repo: git_url, ssh_priv: ssh });
                self.state.sett = Settings::Normal;
                self.state.window.settings_open = false;
                res.push(Effect::CloneRepo);
            },
        }
        proof {
            assert(res@ =~= settings_step(c, m, editors.name@, editors.url@).1);
        }
        res
    }
}

} // verus!

verus! {

impl Controls {
    /// Takes in the selection of an article.
    pub fn update_artikle_list(&mut self, m: ArtikleListM) -> (res: Vec<Effect>)
        requires
            artikle_ok(old(self)@, m),
        ensures
            (final(self)@, res@) == artikle_step(old(self)@, m),
    {
        let ghost c = self@;
        let mut res: Vec<Effect> = Vec::new();
        match m {
            ArtikleListM::Select(given, art, unread) => {
                if let Some(channels) = &self.state.channels {
                    let fi = match given {
                        Some(n) => n,
                        None => self.state.feed.unwrap(),
                    };
                    let feed = &channels[fi].0;
                    let entry = &feed.entries[art];
                    if unread {
                        mark_read(&mut self.state.read, &feed.id, entry.id.clone());
                        if artikles_unread(&self.state.read, feed) < 1 && self.state.window.tab.0 == 0 {
                            if feeds_unread(&self.state.read, channels.as_slice()) < 1 {
                                self.state.window.tab = (1, Nav::Blank);
                                self.state.feed = None;
                            } else {
                                self.state.window.tab.0 = 0;
                                self.state.feed = None;
                            }
                        }
                    }
                    assert(self@.state == select_read_state(c.state, given, art, unread));
                    if self.state.settings.browser {
                        res.push(Effect::OpenUrl(entry.links[0].clone()));
                    } else if let Some(content) = &entry.content {
                        match content {
                            Some(body) => {
                                let md = html_to_markdown(body.as_str());
                                self.markdown = Some(md);
                                self.state.artikle = Some(art);
                                if let Some(nu) = given {
                                    self.state.feed = Some(nu);
                                }
                            },
                            None => {},
                        }
                    } else {
                        res.push(Effect::OpenUrl(entry.links[0].clone()));
                    }
                    res.push(Effect::SaveProgress);
                }
            },
        }
        proof {
            assert(res@ =~= artikle_step(c, m).1);
        }
        res
    }
}

} // verus!

verus! {

impl Controls {
    /// Records an error message.
    fn update_error(&mut self, m: String) -> (res: Vec<Effect>)
        ensures
            (final(self)@, res@) == step(old(self)@, Message::Error(m), Seq::empty(), Seq::empty()),
    {
        let ghost before = self.state.error.deep_view();
        self.state.error.push(m);
        assert(self.state.error.deep_view() =~= before.push(m@));
        Vec::new()
    }

    /// Decides what to do once the directories were looked at.
    fn update_directories(&mut self, feeds: bool, git: bool) -> (res: Vec<Effect>)
        ensures
            (final(self)@, res@) == step(old(self)@, Message::Directories(feeds, git), Seq::empty(), Seq::empty()),
    {
        let ghost c = self@;
        let mut res = Vec::new();
        if !feeds {
            res.push(Effect::CreateFeedsDir);
            self.state.sett = Settings::Repo;
            self.state.window.settings_open = true;
        } else if !git {
            self.state.sett = Settings::Repo;
            self.state.window.settings_open = true;
        } else {
            res.push(Effect::Reload { pull: false, after_pull: false });
        }
        assert(res@ =~= directories_step(c.state, feeds, git).1);
        res
    }

    /// Records the outcome of an operation on the repository and reloads.
    fn update_refresh(&mut self, r: Result<(), String>) -> (res: Vec<Effect>)
        ensures
            (final(self)@, res@) == step(old(self)@, Message::Refresh(r), Seq::empty(), Seq::empty()),
    {
        match r {
            Ok(_) => {},
            Err(stf) => {
                let ghost before = self.state.error.deep_view();
                self.state.error.push(stf);
                assert(self.state.error.deep_view() =~= before.push(stf@));
            },
        }
        let mut res = Vec::new();
        res.push(Effect::Reload { pull: true, after_pull: true });
        assert(res@ =~= seq![Effect::Reload { pull: true, after_pull: true }]);
        res
    }

    /// Takes in loaded feeds, progress and online feeds.
    fn update_loaded(&mut self, l: Loaded, after_pull: bool) -> (res: Vec<Effect>)
        requires
            loaded_ok(old(self)@.state, l),
        ensures
            (final(self)@, res@) == step(old(self)@, Message::Loaded((l, after_pull)), Seq::empty(), Seq::empty()),
    {
        let ghost lg = l;
        let ((channels, icons), progress, online_feeds) = l;
        self.state.online_feeds = online_feeds;
        self.state.channels = channels;
        if let Some(prog) = progress {
            self.state.read = prog;
        }
        if let Some(channels) = &self.state.channels {
            if feeds_unread(&self.state.read, channels.as_slice()) < 1 {
                self.state.window.tab.0 = 1;
            }
        }
        let mut res = Vec::new();
        if after_pull {
            if let Some(down) = icons {
                res.push(Effect::FetchIcons(down));
            }
        } else {
            res.push(Effect::Reload { pull: true, after_pull: true });
        }
        assert(res@ =~= loaded_effects(lg, after_pull));
        res
    }

    /// Pastes clipboard text into an input field.
    fn update_clipboard(&mut self, m: String, n: u8) -> (res: Vec<Effect>)
        ensures
            (final(self)@, res@) == step(old(self)@, Message::Clipboard(m, n), Seq::empty(), Seq::empty()),
    {
        let mut res = Vec::new();
        if n < 2 {
            res.push(Effect::PasteIntoEditor(n, m));
            assert(res@ =~= seq![Effect::PasteIntoEditor(n, m)]);
        } else {
            assert(res@ =~= Seq::<Effect>::empty());
        }
        res
    }

    /// Answers an action on an input field.
    fn update_editor(&mut self, action: EditorAction, editor: u8) -> (res: Vec<Effect>)
        ensures
            (final(self)@, res@) == step(old(self)@, Message::EditorAction(action, editor), Seq::empty(), Seq::empty()),
    {
        let mut res = Vec::new();
        match action {
            EditorAction::Click => res.push(Effect::ShowKeyboard),
            EditorAction::SelectWord => res.push(Effect::HideKeyboard),
            EditorAction::Edit => {
                if editor < 2 {
                    res.push(Effect::EditEditor(editor, true));
                }
            },
            EditorAction::Other => {
                if editor < 2 {
                    res.push(Effect::EditEditor(editor, false));
                }
            },
        }
        assert(res@ =~= editor_effects(action, editor));
        res
    }

    /// Opens or closes the settings.
    fn update_toggle_settings(&mut self) -> (res: Vec<Effect>)
        ensures
            (final(self)@, res@) == step(old(self)@, Message::ToggleSettings, Seq::empty(), Seq::empty()),
    {
        if self.state.window.sideselect && self.state.window.settings_open {
            self.state.window.settings_open = false;
        } else if !self.state.window.sideselect && self.state.window.settings_open {
            self.state.window.sideselect = true;
        } else {
            self.state.window.sideselect = true;
            self.state.window.settings_open = !self.state.window.settings_open;
        }
        Vec::new()
    }

    /// Goes one step back.
    fn update_back(&mut self) -> (res: Vec<Effect>)
        ensures
            (final(self)@, res@) == step(old(self)@, Message::Back, Seq::empty(), Seq::empty()),
    {
        if self.state.window.settings_open {
            match self.state.sett {
                Settings::ManageFeeds | Settings::Repo => {
                    self.state.sett = Settings::Normal;
                },
                Settings::Normal => {
                    self.state.window.settings_open = false;
                },
                Settings::AddUrl => {
                    self.state.sett = Settings::ManageFeeds;
                },
            }
        } else if self.state.window.tab.0 == 0 || self.state.window.tab.0 == 1 {
            if self.state.artikle.is_none() && self.state.feed.is_some() {
                self.state.feed = None;
                self.state.window.tab.1 = Nav::All;
            } else if self.state.feed.is_some() && self.state.artikle.is_some() {
                self.state.artikle = None;
            }
        }
        Vec::new()
    }

    /// Shows or hides the sidebar.
    fn update_side(&mut self) -> (res: Vec<Effect>)
        ensures
            (final(self)@, res@) == step(old(self)@, Message::Side, Seq::empty(), Seq::empty()),
    {
        if self.state.window.sideselect {
            self.state.window.sideselect = false;
            self.state.window.sidebar = true;
        } else {
            self.state.window.sidebar = !self.state.window.sidebar;
        }
        Vec::new()
    }

    /// A list of one effect.
    fn single(e: Effect) -> (res: Vec<Effect>)
        ensures
            res@ == seq![e],
    {
        let mut res = Vec::new();
        res.push(e);
        assert(res@ =~= seq![e]);
        res
    }

    /// Takes in a message, with the texts of the two input fields, and returns
    /// the effects to carry out.
    pub fn update(&mut self, message: Message, editors: &Editors) -> (res: Vec<Effect>)
        requires
            step_ok(old(self)@, message),
        ensures
            (final(self)@, res@) == step(old(self)@, message, editors.name@, editors.url@),
    {
        match message {
            Message::Sidebar(m) => self.update_sidebar(m),
            Message::FeedView(m) => self.update_feed_view(m),
            Message::Error(m) => self.update_error(m),
            Message::ArtikleList(m) => self.update_artikle_list(m),
            Message::Boot => Self::single(Effect::CheckDirectories),
            Message::Directories(feeds, git) => self.update_directories(feeds, git),
            Message::Refresh(r) => self.update_refresh(r),
            Message::Loaded((l, after_pull)) => self.update_loaded(l, after_pull),
            Message::Clipboard(m, n) => self.update_clipboard(m, n),
            Message::EditorAction(action, editor) => self.update_editor(action, editor),
            Message::FeedList(m) => self.update_feed_list(m),
            Message::Add(m) => self.update_add_url(m, editors),
            Message::Settings(m) => self.update_settings(m, editors),
            Message::ToggleSettings => self.update_toggle_settings(),
            Message::Back => self.update_back(),
            Message::Exit => Self::single(Effect::CloseWindow),
            Message::Side => self.update_side(),
            Message::Nothing => Vec::new(),
        }
    }
}

} // verus!

verus! {

/// Expanding a section of the sidebar twice leaves the state as it was.
pub proof fn law_expand_twice(s: UniquizModel)
    ensures
        sidebar_step(sidebar_step(s, SidebarM::ExpandAll), SidebarM::ExpandAll) == s,
        sidebar_step(sidebar_step(s, SidebarM::ExpandUnread), SidebarM::ExpandUnread) == s,
{
}

/// The sidebar button pressed twice, with the content not brought forward,
/// leaves the window as it was.
pub proof fn law_side_twice(w: WindowModel)
    requires
        !w.sideselect,
    ensures
        side_step(side_step(w)) == w,
{
}

/// With the settings closed, the settings button opens them with the content
/// brought forward, and pressed again closes them.
pub proof fn law_toggle_settings(w: WindowModel)
    requires
        !w.settings_open,
    ensures
        toggle_settings_step(w).settings_open,
        toggle_settings_step(w).sideselect,
        !toggle_settings_step(toggle_settings_step(w)).settings_open,
{
}

/// From the page that adds a feed, the back button leads to the feed
/// management, then to the main settings page, then out of the settings.
pub proof fn law_back_from_add_url(s: UniquizModel)
    requires
        s.window.settings_open,
        s.sett == Settings::AddUrl,
    ensures
        back_step(s).sett == Settings::ManageFeeds,
        back_step(back_step(s)).sett == Settings::Normal,
        back_step(back_step(s)).window.settings_open,
        !back_step(back_step(back_step(s))).window.settings_open,
{
}

/// Selecting an unread article records it as read.
pub proof fn law_select_marks_read(c: ControlsModel, given: Option<usize>, art: usize)
    requires
        artikle_ok(c, ArtikleListM::Select(given, art, true)),
        c.state.channels is Some,
    ensures
        ({
            let ch = c.state.channels.unwrap();
            let feed = ch[selected_feed(c.state, given)].0;
            is_read(
                artikle_step(c, ArtikleListM::Select(given, art, true)).0.state.read,
                feed.id@,
                feed.entries@[art as int].id@,
            )
        }),
{
    let ch = c.state.channels.unwrap();
    let feed = ch[selected_feed(c.state, given)].0;
    lemma_mark_read(c.state.read, feed.id@, feed.entries@[art as int].id@, feed.id@, feed.entries@[art as int].id@);
}

/// Reading all articles of a feed records each of them as read.
pub proof fn law_read_all_marks_read(s: UniquizModel, num: usize, k: int)
    requires
        feed_list_ok(s, FeedListM::ReadAll(num)),
        s.channels is Some,
        0 <= k < s.channels.unwrap()[num as int].0.entries@.len(),
    ensures
        ({
            let feed = s.channels.unwrap()[num as int].0;
            is_read(feed_list_step(s, FeedListM::ReadAll(num)).read, feed.id@, feed.entries@[k].id@)
        }),
{
    let feed = s.channels.unwrap()[num as int].0;
    lemma_read_all(s.read, feed, feed.id@, feed.id@);
}

/// An open article always belongs to a selected feed: every message but the
/// selection of an article keeps this.
pub proof fn law_open_article_has_feed(c: ControlsModel, m: Message, name: Seq<char>, url: Seq<char>)
    requires
        c.state.artikle is Some ==> c.state.feed is Some,
        !(m is ArtikleList),
    ensures
        step(c, m, name, url).0.state.artikle is Some ==> step(c, m, name, url).0.state.feed is Some,
{
}

/// No message forgets that an article was read, but a load that brings a new
/// progress record (which replaces the old one).
pub proof fn law_progress_kept(c: ControlsModel, m: Message, name: Seq<char>, url: Seq<char>, fid: Seq<char>, aid: Seq<char>)
    requires
        step_ok(c, m),
        is_read(c.state.read, fid, aid),
        !(m matches Message::Loaded((l, _)) && l.1 is Some),
    ensures
        is_read(step(c, m, name, url).0.state.read, fid, aid),
{
    match m {
        Message::ArtikleList(ArtikleListM::Select(given, art, unread)) => {
            if c.state.channels is Some && unread {
                let ch = c.state.channels.unwrap();
                let feed = ch[selected_feed(c.state, given)].0;
                lemma_mark_read(c.state.read, feed.id@, feed.entries@[art as int].id@, fid, aid);
            }
        },
        Message::FeedList(FeedListM::ReadAll(num)) => {
            if c.state.channels is Some {
                lemma_read_all(c.state.read, c.state.channels.unwrap()[num as int].0, fid, aid);
            }
        },
        _ => {},
    }
}

} // verus!

verus! {

impl From<SidebarM> for Message {
    fn from(m: SidebarM) -> (res: Message) {
        Message::Sidebar(m)
    }
}

impl vstd::std_specs::convert::FromSpecImpl<SidebarM> for Message {
    open spec fn obeys_from_spec() -> bool {
        true
    }

    open spec fn from_spec(m: SidebarM) -> Message {
        Message::Sidebar(m)
    }
}

impl From<AddM> for Message {
    fn from(m: AddM) -> (res: Message) {
        Message::Add(m)
    }
}

impl vstd::std_specs::convert::FromSpecImpl<AddM> for Message {
    open spec fn obeys_from_spec() -> bool {
        true
    }

    open spec fn from_spec(m: AddM) -> Message {
        Message::Add(m)
    }
}

impl From<ArtikleListM> for Message {
    fn from(m: ArtikleListM) -> (res: Message) {
        Message::ArtikleList(m)
    }
}

impl vstd::std_specs::convert::FromSpecImpl<ArtikleListM> for Message {
    open spec fn obeys_from_spec() -> bool {
        true
    }

    open spec fn from_spec(m: ArtikleListM) -> Message {
        Message::ArtikleList(m)
    }
}

impl From<FeedListM> for Message {
    fn from(m: FeedListM) -> (res: Message) {
        Message::FeedList(m)
    }
}

impl vstd::std_specs::convert::FromSpecImpl<FeedListM> for Message {
    open spec fn obeys_from_spec() -> bool {
        true
    }

    open spec fn from_spec(m: FeedListM) -> Message {
        Message::FeedList(m)
    }
}

impl From<FeedViewM> for Message {
    fn from(m: FeedViewM) -> (res: Message) {
        Message::FeedView(m)
    }
}

impl vstd::std_specs::convert::FromSpecImpl<FeedViewM> for Message {
    open spec fn obeys_from_spec() -> bool {
        true
    }

    open spec fn from_spec(m: FeedViewM) -> Message {
        Message::FeedView(m)
    }
}

impl From<SettingsM> for Message {
    fn from(m: SettingsM) -> (res: Message) {
        Message::Settings(m)
    }
}

impl vstd::std_specs::convert::FromSpecImpl<SettingsM> for Message {
    open spec fn obeys_from_spec() -> bool {
        true
    }

    open spec fn from_spec(m: SettingsM) -> Message {
        Message::Settings(m)
    }
}

impl Controls {
    /// The reader at start with the given stored settings, in the stored theme.
    pub fn with_settings(settings: PSettings) -> (res: Controls)
        ensures
            res@ == (ControlsModel {
                markdown: None,
                theme: match settings.theme {
                    Some(t) => t,
                    None => Them::Default,
                },
                state: start_state(settings@),
            }),
    {
        let theme = Them::chosen(settings.theme);
        Controls { markdown: None, theme, state: Uniquiz::with_settings(settings) }
    }
}

} // verus!

verus! {

/// Removing the online feed at `num` takes out exactly the pair that stood
/// there: the list is one shorter, holds every other pair as often as
/// before, keeps the pairs before `num` where they were, and puts the last
/// pair in the place of the removed one.
pub proof fn law_remove_online(c: ControlsModel, num: usize, name: Seq<char>, url: Seq<char>)
    requires
        num < c.state.online.len(),
    ensures
        ({
            let old_list = c.state.online;
            let new_list = settings_step(c, SettingsM::RemoveOnline(num), name, url).0.state.online;
            &&& new_list.len() == old_list.len() - 1
            &&& new_list.to_multiset() == old_list.to_multiset().remove(old_list[num as int])
            &&& forall|i: int| 0 <= i < num ==> new_list[i] == old_list[i]
            &&& num < new_list.len() ==> new_list[num as int] == old_list[old_list.len() - 1]
        }),
{
    broadcast use vstd::seq_lib::group_to_multiset_ensures;

    let o = c.state.online;
    let last = o[o.len() - 1];
    let u = o.update(num as int, last);
    let n = u.drop_last();
    assert(u =~= n.push(last));
    assert(u.to_multiset() == o.to_multiset().insert(last).remove(o[num as int]));
    assert(u.to_multiset() == n.to_multiset().insert(last));
    assert(o.to_multiset().count(o[num as int]) > 0) by {
        assert(o.contains(o[num as int]));
    }
    assert(o.to_multiset().count(last) > 0) by {
        assert(o.contains(last));
    }
    assert(n.to_multiset() =~= o.to_multiset().remove(o[num as int])) by {
        assert forall|x| #[trigger] n.to_multiset().count(x) == o.to_multiset().remove(o[num as int]).count(x) by {
            assert(n.to_multiset().insert(last).count(x) == o.to_multiset().insert(last).remove(o[num as int]).count(x));
        }
    }
}

/// Outside the settings, in the first two tabs, the back button leads from
/// an open article to its feed (which stays selected), and from a feed to
/// the list of feeds of the same tab.
pub proof fn law_back_in_tabs(s: UniquizModel)
    requires
        !s.window.settings_open,
        s.window.tab.0 == 0 || s.window.tab.0 == 1,
        s.feed is Some,
    ensures
        s.artikle is Some ==> back_step(s).artikle is None && back_step(s).feed == s.feed && back_step(s).window
            == s.window,
        s.artikle is None ==> back_step(s).feed is None && back_step(s).window.tab == (s.window.tab.0, Nav::All)
            && back_step(s).artikle is None,
{
}

/// Selecting an unread article of a feed that keeps an unread article after
/// it (it had two or more), or any article outside the first tab, leaves the
/// window as it was and the selected feed too (but for the feed the
/// selection names, which becomes the selected one where the article is
/// shown).
pub proof fn law_select_keeps_feed(c: ControlsModel, given: Option<usize>, art: usize, unread: bool)
    requires
        artikle_ok(c, ArtikleListM::Select(given, art, unread)),
        c.state.channels is Some,
        unread_of(c.state.read, c.state.channels.unwrap()[selected_feed(c.state, given)].0) >= 2
            || c.state.window.tab.0 != 0 || !unread,
    ensures
        ({
            let t = artikle_step(c, ArtikleListM::Select(given, art, unread)).0.state;
            &&& t.window == c.state.window
            &&& given is None ==> t.feed == c.state.feed
            &&& given matches Some(n) ==> t.feed == c.state.feed || t.feed == Some(n)
        }),
{
    let ch = c.state.channels.unwrap();
    let feed = ch[selected_feed(c.state, given)].0;
    law_mark_read_counts(c.state.read, feed.id@, feed.entries@[art as int].id@, feed);
}

/// Whether some feed has an unread article is what `feeds_with_unread`
/// counts.
pub proof fn lemma_feeds_with_unread(p: Seq<(Seq<char>, Seq<Seq<char>>)>, ch: Seq<(Feed, Imag)>)
    ensures
        feeds_with_unread(p, ch) >= 1 <==> exists|i: int| 0 <= i < ch.len() && unread_of(p, #[trigger] ch[i].0) > 0,
    decreases ch.len(),
{
    if ch.len() > 0 {
        let rest = ch.drop_last();
        lemma_feeds_with_unread(p, rest);
        if exists|i: int| 0 <= i < ch.len() && unread_of(p, #[trigger] ch[i].0) > 0 {
            let i = choose|i: int| 0 <= i < ch.len() && unread_of(p, #[trigger] ch[i].0) > 0;
            if i < ch.len() - 1 {
                assert(rest[i] == ch[i]);
            }
        }
        if exists|i: int| 0 <= i < rest.len() && unread_of(p, #[trigger] rest[i].0) > 0 {
            let i = choose|i: int| 0 <= i < rest.len() && unread_of(p, #[trigger] rest[i].0) > 0;
            assert(ch[i] == rest[i]);
        }
    }
}

/// Reading a whole feed switches to the list of all feeds (second tab,
/// nothing selected) exactly when no feed has an unread article any more;
/// while some feed has one, the window stays as it was.
pub proof fn law_read_all_switch(s: UniquizModel, num: usize)
    requires
        feed_list_ok(s, FeedListM::ReadAll(num)),
        s.channels is Some,
    ensures
        ({
            let ch = s.channels.unwrap();
            let read = after_read_all(s.read, ch[num as int].0);
            let t = feed_list_step(s, FeedListM::ReadAll(num));
            &&& (exists|i: int| 0 <= i < ch.len() && unread_of(read, #[trigger] ch[i].0) > 0) ==> t.window == s.window
            &&& (forall|i: int| 0 <= i < ch.len() ==> unread_of(read, #[trigger] ch[i].0) <= 0) ==> t.window
                == WindowModel { tab: (1usize, Nav::Blank), ..s.window }
        }),
{
    let ch = s.channels.unwrap();
    lemma_feeds_with_unread(after_read_all(s.read, ch[num as int].0), ch);
}

} // verus!
