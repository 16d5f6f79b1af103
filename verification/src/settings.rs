//! User settings: language, theme, browser use and the repository.
use vstd::prelude::*;
use crate::model::GitState;

verus! {

/// The language of the interface.
#[derive(Clone, Copy, Debug, PartialEq, Eq, Structural)]
pub enum Language {
    System,
    De,
    En,
}

/// The colour theme.
#[derive(Clone, Copy, Debug, PartialEq, Eq, Structural)]
pub enum Them {
    Light,
    Dark,
    Default,
}

/// A language choice of the settings page.
#[derive(Clone, Debug)]
pub enum Lang {
    Custom(String),
    System(String),
}

/// The settings that are stored in `config.ron`.
#[derive(Clone, Debug)]
pub struct PSettings {
    pub git: Option<GitState>,
    pub lang: Option<Language>,
    pub browser: bool,
    pub theme: Option<Them>,
}

/// The value of the settings: the repository as a pair of url and key.
pub struct PSettingsModel {
    pub git: Option<(Seq<char>, Seq<char>)>,
    pub lang: Option<Language>,
    pub browser: bool,
    pub theme: Option<Them>,
}

impl View for PSettings {
    type V = PSettingsModel;

    open spec fn view(&self) -> PSettingsModel {
        PSettingsModel {
            git: match self.git {
                Some(g) => Some((g.repo@, g.ssh_priv@)),
                None => None,
            },
            lang: self.lang,
            browser: self.browser,
            theme: self.theme,
        }
    }
}

/// Messages of the settings page.
#[derive(Clone, Debug)]
pub enum SettingsM {
    PasteUrl,
    AddUrl,
    ManageFeeds,
    PasteSsh,
    AddRepo,
    RemoveOnline(usize),
    RemoveOffline(String),
    RepoPage,
    ThemeChange(Them),
    ResetFeeds,
    ResetProgress,
    ResetErrors,
    LangChange(Language),
    CheckboxBrowser(bool),
}

impl Default for PSettings {
    /// An empty repository, German, the browser and the default theme.
    fn default() -> (res: Self)
        ensures
            res@ == (PSettingsModel {
                git: Some((Seq::<char>::empty(), Seq::<char>::empty())),
                lang: Some(Language::De),
                browser: true,
                theme: Some(Them::Default),
            }),
    {
        let git = GitState::default();
        assert(git.repo@ =~= Seq::<char>::empty());
        assert(git.ssh_priv@ =~= Seq::<char>::empty());
        PSettings { git: Some(git), lang: Some(Language::De), browser: true, theme: Some(Them::Default) }
    }
}

impl Language {
    /// The languages in the order in which the settings page offers them.
    pub fn all() -> (res: [Language; 3])
        ensures
            res@ == seq![Language::System, Language::En, Language::De],
    {
        let res = [Language::System, Language::En, Language::De];
        assert(res@ =~= seq![Language::System, Language::En, Language::De]);
        res
    }

    /// The translation key of the language's name.
    pub fn label_key(&self) -> (res: &'static str)
        ensures
            res@ == match self {
                Language::En => "english"@,
                Language::De => "german"@,
                Language::System => "system"@,
            },
    {
        match self {
            Language::En => "english",
            Language::De => "german",
            Language::System => "system",
        }
    }
}

impl Them {
    /// The themes in the order in which the settings page offers them.
    pub fn all() -> (res: [Them; 3])
        ensures
            res@ == seq![Them::Dark, Them::Light, Them::Default],
    {
        let res = [Them::Dark, Them::Light, Them::Default];
        assert(res@ =~= seq![Them::Dark, Them::Light, Them::Default]);
        res
    }

    /// The translation key of the theme's name.
    pub fn label_key(&self) -> (res: &'static str)
        ensures
            res@ == match self {
                Them::Light => "light-theme"@,
                Them::Dark => "dark-theme"@,
                Them::Default => "default-theme"@,
            },
    {
        match self {
            Them::Light => "light-theme",
            Them::Dark => "dark-theme",
            Them::Default => "default-theme",
        }
    }

    /// The theme to show for a stored choice: the default theme when none is
    /// stored.
    pub fn chosen(theme: Option<Them>) -> (res: Them)
        ensures
            res == match theme {
                Some(t) => t,
                None => Them::Default,
            },
    {
        match theme {
            Some(t) => t,
            None => Them::Default,
        }
    }
}

} // verus!
