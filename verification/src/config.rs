//! Where the panel keeps its files: five working directories, chosen by
//! the environment mode and by optional per-directory settings.

use vstd::prelude::*;
use crate::text::same_text;

verus! {

/// One of the five working directories.
#[derive(Clone, Copy, Debug, PartialEq, Eq, Structural)]
pub enum DirKind {
    Base,
    Www,
    Logs,
    Config,
    Run,
}

/// The mode is development when the `ENV` setting is absent or reads
/// `development`; anything else means production.
pub open spec fn development_spec(env_setting: Option<Seq<char>>) -> bool {
    match env_setting {
        None => true,
        Some(v) => v == "development"@,
    }
}

/// Whether the `ENV` setting (absent when unset or unreadable) selects
/// development mode.
pub fn is_development(env_setting: Option<&str>) -> (r: bool)
    ensures
        r == development_spec(
            match env_setting {
                None => None,
                Some(v) => Some(v@),
            },
        ),
{
    match env_setting {
        None => true,
        Some(v) => same_text(v, "development"),
    }
}

impl DirKind {
    /// The name of the environment variable that may relocate this
    /// directory, in the given mode.
    pub open spec fn env_key_spec(self, development: bool) -> Seq<char> {
        match (self, development) {
            (DirKind::Base, true) => "DEV_BASE_DIR"@,
            (DirKind::Www, true) => "DEV_WWW_DIR"@,
            (DirKind::Logs, true) => "DEV_LOG_DIR"@,
            (DirKind::Config, true) => "DEV_CONFIG_DIR"@,
            (DirKind::Run, true) => "DEV_RUNTIME_DIR"@,
            (DirKind::Base, false) => "BASE_DIR"@,
            (DirKind::Www, false) => "WWW_DIR"@,
            (DirKind::Logs, false) => "LOG_DIR"@,
            (DirKind::Config, false) => "CONFIG_DIR"@,
            (DirKind::Run, false) => "RUNTIME_DIR"@,
        }
    }

    /// Where this directory is when no variable relocates it.
    pub open spec fn default_dir_spec(self, development: bool) -> Seq<char> {
        match (self, development) {
            (DirKind::Base, true) => "./"@,
            (DirKind::Www, true) => "./www"@,
            (DirKind::Logs, true) => "./logs"@,
            (DirKind::Config, true) => "./config"@,
            (DirKind::Run, true) => "./run"@,
            (DirKind::Base, false) => "/opt/kewr-panel"@,
            (DirKind::Www, false) => "/var/lib/kewr-panel"@,
            (DirKind::Logs, false) => "/var/log/kewr-panel"@,
            (DirKind::Config, false) => "/etc/kewr-panel"@,
            (DirKind::Run, false) => "/var/run/kewr-panel"@,
        }
    }

    /// The environment variable that may relocate this directory.
    pub fn env_key(self, development: bool) -> (r: &'static str)
        ensures
            r@ == self.env_key_spec(development),
    {
        match (self, development) {
            (DirKind::Base, true) => "DEV_BASE_DIR",
            (DirKind::Www, true) => "DEV_WWW_DIR",
            (DirKind::Logs, true) => "DEV_LOG_DIR",
            (DirKind::Config, true) => "DEV_CONFIG_DIR",
            (DirKind::Run, true) => "DEV_RUNTIME_DIR",
            (DirKind::Base, false) => "BASE_DIR",
            (DirKind::Www, false) => "WWW_DIR",
            (DirKind::Logs, false) => "LOG_DIR",
            (DirKind::Config, false) => "CONFIG_DIR",
            (DirKind::Run, false) => "RUNTIME_DIR",
        }
    }

    /// The directory used when its variable is not set.
    pub fn default_dir(self, development: bool) -> (r: &'static str)
        ensures
            r@ == self.default_dir_spec(development),
    {
        match (self, development) {
            (DirKind::Base, true) => "./",
            (DirKind::Www, true) => "./www",
            (DirKind::Logs, true) => "./logs",
            (DirKind::Config, true) => "./config",
            (DirKind::Run, true) => "./run",
            (DirKind::Base, false) => "/opt/kewr-panel",
            (DirKind::Www, false) => "/var/lib/kewr-panel",
            (DirKind::Logs, false) => "/var/log/kewr-panel",
            (DirKind::Config, false) => "/etc/kewr-panel",
            (DirKind::Run, false) => "/var/run/kewr-panel",
        }
    }
}

/// The setting if there is one, else the default directory.
pub open spec fn chosen_dir(setting: Option<Seq<char>>, kind: DirKind, development: bool) -> Seq<
    char,
> {
    match setting {
        Some(v) => v,
        None => kind.default_dir_spec(development),
    }
}

/// The model of an optional setting.
pub open spec fn setting_view(setting: Option<String>) -> Option<Seq<char>> {
    match setting {
        Some(v) => Some(v@),
        None => None,
    }
}

/// The working directories of the panel.
#[derive(Clone, Debug)]
pub struct WorkingDirectoryConfig {
    pub base_dir: String,
    pub www_dir: String,
    pub logs_dir: String,
    pub config_dir: String,
    pub run_dir: String,
}

impl WorkingDirectoryConfig {
    /// The directory of the given kind.
    pub open spec fn dir_spec(self, kind: DirKind) -> Seq<char> {
        match kind {
            DirKind::Base => self.base_dir@,
            DirKind::Www => self.www_dir@,
            DirKind::Logs => self.logs_dir@,
            DirKind::Config => self.config_dir@,
            DirKind::Run => self.run_dir@,
        }
    }

    /// The directories in the order the panel creates them: base, www,
    /// logs, config, run.
    pub open spec fn dirs_spec(self) -> Seq<Seq<char>> {
        seq![self.base_dir@, self.www_dir@, self.logs_dir@, self.config_dir@, self.run_dir@]
    }

    /// The directories chosen in the given mode from the values of the
    /// five variables (`None` where a variable is unset or unreadable).
    pub fn from_settings(
        development: bool,
        base: Option<String>,
        www: Option<String>,
        logs: Option<String>,
        config: Option<String>,
        run: Option<String>,
    ) -> (r: Self)
        ensures
            r.base_dir@ == chosen_dir(setting_view(base), DirKind::Base, development),
            r.www_dir@ == chosen_dir(setting_view(www), DirKind::Www, development),
            r.logs_dir@ == chosen_dir(setting_view(logs), DirKind::Logs, development),
            r.config_dir@ == chosen_dir(setting_view(config), DirKind::Config, development),
            r.run_dir@ == chosen_dir(setting_view(run), DirKind::Run, development),
    {
        WorkingDirectoryConfig {
            base_dir: Self::setting_or_default(base, DirKind::Base, development),
            www_dir: Self::setting_or_default(www, DirKind::Www, development),
            logs_dir: Self::setting_or_default(logs, DirKind::Logs, development),
            config_dir: Self::setting_or_default(config, DirKind::Config, development),
            run_dir: Self::setting_or_default(run, DirKind::Run, development),
        }
    }

    /// The setting, or the default when there is none.
    fn setting_or_default(setting: Option<String>, kind: DirKind, development: bool) -> (r: String)
        ensures
            r@ == chosen_dir(setting_view(setting), kind, development),
    {
        match setting {
            Some(v) => v,
            None => String::from_str(kind.default_dir(development)),
        }
    }

    /// The directory of the given kind.
    pub fn dir(&self, kind: DirKind) -> (r: &str)
        ensures
            r@ == self.dir_spec(kind),
    {
        match kind {
            DirKind::Base => self.base_dir.as_str(),
            DirKind::Www => self.www_dir.as_str(),
            DirKind::Logs => self.logs_dir.as_str(),
            DirKind::Config => self.config_dir.as_str(),
            DirKind::Run => self.run_dir.as_str(),
        }
    }

    /// The five directories in the order they are created.
    pub fn dirs(&self) -> (r: Vec<String>)
        ensures
            r@.len() == 5,
            forall|i: int| 0 <= i < 5 ==> #[trigger] r@[i]@ == self.dirs_spec()[i],
    {
        vec![
            self.base_dir.clone(),
            self.www_dir.clone(),
            self.logs_dir.clone(),
            self.config_dir.clone(),
            self.run_dir.clone(),
        ]
    }
}


/// In either mode, a directory that has a setting is exactly that
/// setting, and a directory without one is the mode's default.
pub proof fn lemma_setting_wins(setting: Option<Seq<char>>, kind: DirKind, development: bool)
    ensures
        setting matches Some(v) ==> chosen_dir(setting, kind, development) == v,
        setting is None ==> chosen_dir(setting, kind, development) == kind.default_dir_spec(
            development,
        ),
{
}

/// Development mode reads the `DEV_`-prefixed variable of each directory,
/// production mode the same name without the prefix, and the development
/// defaults are all relative (starting with `./`) while the production
/// defaults are all absolute.
pub proof fn lemma_mode_keys_and_defaults(kind: DirKind)
    ensures
        kind.env_key_spec(true) == "DEV_"@ + kind.env_key_spec(false),
        kind.default_dir_spec(true).len() >= 2 && kind.default_dir_spec(true)[0] == '.'
            && kind.default_dir_spec(true)[1] == '/',
        kind.default_dir_spec(false).len() >= 1 && kind.default_dir_spec(false)[0] == '/',
{
    reveal_strlit("DEV_");
    reveal_strlit("DEV_BASE_DIR");
    reveal_strlit("DEV_WWW_DIR");
    reveal_strlit("DEV_LOG_DIR");
    reveal_strlit("DEV_CONFIG_DIR");
    reveal_strlit("DEV_RUNTIME_DIR");
    reveal_strlit("BASE_DIR");
    reveal_strlit("WWW_DIR");
    reveal_strlit("LOG_DIR");
    reveal_strlit("CONFIG_DIR");
    reveal_strlit("RUNTIME_DIR");
    reveal_strlit("./");
    reveal_strlit("./www");
    reveal_strlit("./logs");
    reveal_strlit("./config");
    reveal_strlit("./run");
    reveal_strlit("/opt/kewr-panel");
    reveal_strlit("/var/lib/kewr-panel");
    reveal_strlit("/var/log/kewr-panel");
    reveal_strlit("/etc/kewr-panel");
    reveal_strlit("/var/run/kewr-panel");
    assert(kind.env_key_spec(true) =~= "DEV_"@ + kind.env_key_spec(false));
}

} // verus!
