//! Weft Terminal: the verified core of an AI-assisted shell environment.
use vstd::prelude::*;
use crate::config_simple::{validation, Config, ConfigError};
use crate::text::{is_blank_seq, lemma_trim_empty_iff_blank, trim, trim_seq};

pub mod text;
mod clock;
pub mod config_simple;
pub mod config;
pub mod suggest;
pub mod plugin_store;
pub mod doctor;
pub mod cli;
pub mod pty;
pub mod performance;
pub mod rendering;
pub mod ai;
pub mod debugging;
pub mod terminal;
pub mod collaboration;
pub mod plugins;

verus! {

/// Main Weft application structure; its configuration always passes validation.
pub struct WeftApp {
    config: Config,
}

/// How the interactive shell is started.
#[derive(Debug, Clone)]
pub enum LaunchPlan {
    /// Attached to a pseudo-terminal.
    Pty { shell: String },
    /// As a plain child process sharing the caller's standard streams.
    Direct { shell: String },
}

impl WeftApp {
    #[verifier::type_invariant]
    spec fn valid(self) -> bool {
        validation(self.config@) is Ok
    }

    /// The configuration the application runs with.
    pub closed spec fn config_view(self) -> crate::config_simple::ConfigView {
        self.config@
    }

    /// An application for a loaded configuration, refused when it does not validate.
    pub fn new_with_config(config: Config) -> (r: Result<WeftApp, ConfigError>)
        ensures
            match validation(config@) {
                Ok(_) => r matches Ok(app) && app.config_view() == config@,
                Err(e) => r == Err::<WeftApp, ConfigError>(e),
            },
    {
        match config.validate() {
            Ok(()) => Ok(WeftApp { config }),
            Err(e) => Err(e),
        }
    }

    /// The configuration the application runs with.
    pub fn config(&self) -> (r: &Config)
        ensures
            r@ == self.config_view(),
            validation(r@) is Ok,
    {
        proof {
            use_type_invariant(self);
        }
        &self.config
    }

    /// Startup hooks run when plugins and hooks on startup are both enabled.
    pub fn startup_hooks_enabled(&self) -> (r: bool)
        ensures
            r == (self.config_view().plugins_enabled && self.config_view().run_hooks_on_startup),
    {
        self.config.plugins.enabled && self.config.plugins.run_hooks_on_startup
    }

    /// How the shell is launched: its trimmed command, in a pseudo-terminal when configured.
    /// The trimmed command is never empty, since the configuration validated.
    pub fn launch_plan(&self) -> (r: LaunchPlan)
        ensures
            match r {
                LaunchPlan::Pty { shell } => self.config_view().use_pty && shell@ == trim_seq(
                    self.config_view().shell,
                ),
                LaunchPlan::Direct { shell } => !self.config_view().use_pty && shell@ == trim_seq(
                    self.config_view().shell,
                ),
            },
            trim_seq(self.config_view().shell).len() > 0,
    {
        proof {
            use_type_invariant(self);
            lemma_trim_empty_iff_blank(self.config.terminal.shell@);
        }
        let shell = trim(self.config.terminal.shell.as_str());
        if self.config.terminal.use_pty {
            LaunchPlan::Pty { shell }
        } else {
            LaunchPlan::Direct { shell }
        }
    }
}

} // verus!
