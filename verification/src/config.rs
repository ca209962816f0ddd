//! Where things are kept, and the settings.

use vstd::prelude::*;

use crate::error;
use crate::error::{Error, ErrorView};
use crate::paths;
use crate::paths::join_path;
use crate::text;
use crate::text::{clone_maybe, decimal_text, joined};

verus! {

/// Where the runtime keeps its files.
#[derive(Debug, PartialEq, Eq)]
pub struct AppPaths {
    pub state_dir: String,
    pub runtime_dir: String,
    pub config_file: String,
    pub database: String,
    pub socket: String,
    pub lock_file: String,
    pub sessions_dir: String,
}

/// What an `AppPaths` holds.
#[verifier::ext_equal]
pub struct AppPathsView {
    pub state_dir: Seq<char>,
    pub runtime_dir: Seq<char>,
    pub config_file: Seq<char>,
    pub database: Seq<char>,
    pub socket: Seq<char>,
    pub lock_file: Seq<char>,
    pub sessions_dir: Seq<char>,
}

impl View for AppPaths {
    type V = AppPathsView;

    open spec fn view(&self) -> AppPathsView {
        AppPathsView {
            state_dir: self.state_dir@,
            runtime_dir: self.runtime_dir@,
            config_file: self.config_file@,
            database: self.database@,
            socket: self.socket@,
            lock_file: self.lock_file@,
            sessions_dir: self.sessions_dir@,
        }
    }
}

impl Clone for AppPaths {
    fn clone(&self) -> (copy: Self)
        ensures
            copy@ == self@,
    {
        AppPaths {
            state_dir: self.state_dir.clone(),
            runtime_dir: self.runtime_dir.clone(),
            config_file: self.config_file.clone(),
            database: self.database.clone(),
            socket: self.socket.clone(),
            lock_file: self.lock_file.clone(),
            sessions_dir: self.sessions_dir.clone(),
        }
    }
}

/// What the environment says of where files go.
#[derive(Debug, PartialEq, Eq)]
pub struct Environment {
    pub state_override: Option<String>,
    pub runtime_override: Option<String>,
    pub xdg_runtime_dir: Option<String>,
    pub config_override: Option<String>,
    pub data_dir: String,
    pub config_dir: String,
    pub temp_dir: String,
    pub uid: u32,
}

/// What an `Environment` holds.
#[verifier::ext_equal]
pub struct EnvironmentView {
    pub state_override: Option<Seq<char>>,
    pub runtime_override: Option<Seq<char>>,
    pub xdg_runtime_dir: Option<Seq<char>>,
    pub config_override: Option<Seq<char>>,
    pub data_dir: Seq<char>,
    pub config_dir: Seq<char>,
    pub temp_dir: Seq<char>,
    pub uid: u32,
}

impl View for Environment {
    type V = EnvironmentView;

    open spec fn view(&self) -> EnvironmentView {
        EnvironmentView {
            state_override: text::maybe_text(self.state_override),
            runtime_override: text::maybe_text(self.runtime_override),
            xdg_runtime_dir: text::maybe_text(self.xdg_runtime_dir),
            config_override: text::maybe_text(self.config_override),
            data_dir: self.data_dir@,
            config_dir: self.config_dir@,
            temp_dir: self.temp_dir@,
            uid: self.uid,
        }
    }
}

impl Clone for Environment {
    fn clone(&self) -> (copy: Self)
        ensures
            copy@ == self@,
    {
        Environment {
            state_override: clone_maybe(&self.state_override),
            runtime_override: clone_maybe(&self.runtime_override),
            xdg_runtime_dir: clone_maybe(&self.xdg_runtime_dir),
            config_override: clone_maybe(&self.config_override),
            data_dir: self.data_dir.clone(),
            config_dir: self.config_dir.clone(),
            temp_dir: self.temp_dir.clone(),
            uid: self.uid,
        }
    }
}

/// The settings of the daemon.
#[derive(Debug, PartialEq, Eq)]
pub struct Settings {
    pub max_concurrent_executions: usize,
    pub capture_limit_bytes: u64,
    pub retention_days: u64,
    pub retention_bytes: u64,
    pub cancel_grace_ms: u64,
    pub shell: String,
    pub supervisor_path: Option<String>,
}

/// What a `Settings` holds.
#[verifier::ext_equal]
pub struct SettingsView {
    pub max_concurrent_executions: usize,
    pub capture_limit_bytes: u64,
    pub retention_days: u64,
    pub retention_bytes: u64,
    pub cancel_grace_ms: u64,
    pub shell: Seq<char>,
    pub supervisor_path: Option<Seq<char>>,
}

impl View for Settings {
    type V = SettingsView;

    open spec fn view(&self) -> SettingsView {
        SettingsView {
            max_concurrent_executions: self.max_concurrent_executions,
            capture_limit_bytes: self.capture_limit_bytes,
            retention_days: self.retention_days,
            retention_bytes: self.retention_bytes,
            cancel_grace_ms: self.cancel_grace_ms,
            shell: self.shell@,
            supervisor_path: text::maybe_text(self.supervisor_path),
        }
    }
}

impl Clone for Settings {
    fn clone(&self) -> (copy: Self)
        ensures
            copy@ == self@,
    {
        Settings {
            max_concurrent_executions: self.max_concurrent_executions,
            capture_limit_bytes: self.capture_limit_bytes,
            retention_days: self.retention_days,
            retention_bytes: self.retention_bytes,
            cancel_grace_ms: self.cancel_grace_ms,
            shell: self.shell.clone(),
            supervisor_path: clone_maybe(&self.supervisor_path),
        }
    }
}

/// Where the runtime keeps its files: what the environment says outright comes
/// first, then the directories of the platform. The runtime directory falls
/// back to one of the user's own under the directory for temporary files.
pub open spec fn paths_for(env: EnvironmentView) -> AppPathsView {
    let state_dir = match env.state_override {
        Some(path) => path,
        None => env.data_dir,
    };
    let runtime_dir = match env.runtime_override {
        Some(path) => path,
        None => match env.xdg_runtime_dir {
            Some(path) => paths::joined_path(path, "loomterm"@),
            None => paths::joined_path(env.temp_dir, "loomterm-"@ + text::decimal(env.uid as nat)),
        },
    };
    AppPathsView {
        state_dir,
        runtime_dir,
        config_file: match env.config_override {
            Some(path) => path,
            None => paths::joined_path(env.config_dir, "config.toml"@),
        },
        database: paths::joined_path(state_dir, "loom.db"@),
        socket: paths::joined_path(runtime_dir, "loomd.sock"@),
        lock_file: paths::joined_path(runtime_dir, "loomd.lock"@),
        sessions_dir: paths::joined_path(state_dir, "sessions"@),
    }
}

impl AppPaths {
    /// Where the runtime keeps its files, in the environment that was found.
    /// `None` stands for a platform without a home for such files.
    pub fn discover(found: Option<Environment>) -> (paths: Result<AppPaths, Error>)
        ensures
            error::viewed(paths) == (match found {
                Some(env) => Ok(paths_for(env@)),
                None => Err(ErrorView::Config("could not determine platform directories"@)),
            }),
    {
        let env = match found {
            Some(env) => env,
            None => {
                return Err(Error::Config("could not determine platform directories".to_owned()));
            },
        };
        let state_dir = match env.state_override {
            Some(path) => path,
            None => env.data_dir,
        };
        let runtime_dir = match env.runtime_override {
            Some(path) => path,
            None => match env.xdg_runtime_dir {
                Some(path) => join_path(path.as_str(), "loomterm"),
                None => {
                    let own = joined("loomterm-", decimal_text(env.uid as u64).as_str());
                    join_path(env.temp_dir.as_str(), own.as_str())
                },
            },
        };
        let config_file = match env.config_override {
            Some(path) => path,
            None => join_path(env.config_dir.as_str(), "config.toml"),
        };
        Ok(
            AppPaths {
                database: join_path(state_dir.as_str(), "loom.db"),
                socket: join_path(runtime_dir.as_str(), "loomd.sock"),
                lock_file: join_path(runtime_dir.as_str(), "loomd.lock"),
                sessions_dir: join_path(state_dir.as_str(), "sessions"),
                state_dir,
                runtime_dir,
                config_file,
            },
        )
    }

    /// The directories that have to be there and private, in the order in which
    /// they are made; `config_dir` is the one that holds the settings, where it
    /// has one.
    pub fn ensure(&self, config_dir: Option<String>) -> (directories: Vec<String>)
        ensures
            text::texts(directories@) == seq![
                self@.state_dir,
                self@.sessions_dir,
                self@.runtime_dir,
            ] + (match config_dir {
                Some(path) => seq![path@],
                None => Seq::empty(),
            }),
    {
        let mut directories: Vec<String> = Vec::new();
        directories.push(self.state_dir.clone());
        directories.push(self.sessions_dir.clone());
        directories.push(self.runtime_dir.clone());
        match config_dir {
            Some(path) => {
                directories.push(path);
            },
            None => {},
        }
        directories
    }
}

/// The settings where nothing is configured.
pub open spec fn default_settings() -> SettingsView {
    SettingsView {
        max_concurrent_executions: 8,
        capture_limit_bytes: 268_435_456,
        retention_days: 7,
        retention_bytes: 1_073_741_824,
        cancel_grace_ms: 2_000,
        shell: "/bin/sh"@,
        supervisor_path: None,
    }
}

impl Default for Settings {
    /// The settings where nothing is configured.
    fn default() -> (settings: Self)
        ensures
            settings@ == default_settings(),
    {
        Settings {
            max_concurrent_executions: 8,
            capture_limit_bytes: 268_435_456,
            retention_days: 7,
            retention_bytes: 1_073_741_824,
            cancel_grace_ms: 2_000,
            shell: "/bin/sh".to_owned(),
            supervisor_path: None,
        }
    }
}

/// What was found where the settings are kept.
#[derive(Debug)]
pub enum SettingsSource {
    /// There is no such file.
    Missing,
    /// The file holds these settings.
    Parsed(Settings),
    /// The file cannot be understood.
    Malformed(String),
}

/// The settings in force: the defaults where there is no file. A daemon that
/// could run nothing is refused.
pub open spec fn settings_in_force(config_file: Seq<char>, source: SettingsSource) -> Result<
    SettingsView,
    ErrorView,
> {
    match source {
        SettingsSource::Missing => Ok(default_settings()),
        SettingsSource::Malformed(message) => Err(
            ErrorView::Config(config_file + ": "@ + message@),
        ),
        SettingsSource::Parsed(parsed) => if parsed@.max_concurrent_executions == 0 {
            Err(ErrorView::Config("max_concurrent_executions must be greater than zero"@))
        } else {
            Ok(parsed@)
        },
    }
}

impl Settings {
    /// The settings in force: the defaults where there is no file. A daemon
    /// that could run nothing is refused.
    pub fn load(config_file: &str, source: SettingsSource) -> (settings: Result<Settings, Error>)
        ensures
            error::viewed(settings) == settings_in_force(config_file@, source),
    {
        match source {
            SettingsSource::Missing => Ok(Settings::default()),
            SettingsSource::Malformed(message) => {
                let mut text = joined(config_file, ": ");
                text.append(message.as_str());
                Err(Error::Config(text))
            },
            SettingsSource::Parsed(parsed) => {
                if parsed.max_concurrent_executions == 0 {
                    Err(
                        Error::Config(
                            "max_concurrent_executions must be greater than zero".to_owned(),
                        ),
                    )
                } else {
                    Ok(parsed)
                }
            },
        }
    }
}

} // verus!
