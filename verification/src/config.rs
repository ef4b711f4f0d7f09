//! Launcher configuration: the run command, restart policy, provider
//! credentials, the status channel and the configured triggers.
//!
//! The unverified edge reads and writes the configuration file; a missing
//! file is replaced by [`Config::default`] and persisted.
use vstd::prelude::*;

use crate::destination::distinct_keys;

verus! {

/// Status-channel settings: an optional webhook URL to post messages to.
pub struct Status {
    pub webhook: Option<String>,
}

/// Per-provider credential tokens.
pub struct Tokens {
    pub github: Option<String>,
}

/// One configured trigger for starting a synchronization cycle.
pub enum Trigger {
    Startup,
    Webhook { port: u16 },
}

/// Top-level configuration.
pub struct Config {
    /// The command(s) the supervisor launches.
    pub run: Option<Vec<String>>,
    pub status: Status,
    pub tokens: Tokens,
    /// Trigger name to trigger kind.
    pub triggers: Vec<(String, Trigger)>,
    /// Minimum number of seconds between two launches of the child process.
    pub min_restart_interval_seconds: u64,
    /// Whether the supervisor relaunches the child process at all.
    pub restart: bool,
}

impl Config {
    /// Trigger names are unique: at most one trigger per name, as the
    /// configuration file's map form guarantees.
    pub open spec fn wf(self) -> bool {
        distinct_keys(self.triggers@)
    }
}

/// Default minimum restart interval, in seconds.
pub fn default_min_restart_interval() -> (r: u64)
    ensures
        r == 240,
{
    240
}

/// Restarting is on unless the configuration turns it off.
pub fn default_restart() -> (r: bool)
    ensures
        r,
{
    true
}

impl Default for Config {
    /// The configuration synthesized (and persisted) when none exists yet:
    /// one launch command, a single `startup` trigger, no credentials, no
    /// status channel, and the default restart policy.
    fn default() -> (c: Config)
        ensures
            c.run matches Some(cmds) && cmds@.len() == 1 && cmds@[0]@
                == "java -jar fabric-server-launch.jar"@,
            c.status.webhook is None,
            c.tokens.github is None,
            c.triggers@.len() == 1 && c.triggers@[0].0@ == "startup"@ && c.triggers@[0].1
                is Startup,
            c.min_restart_interval_seconds == 240,
            c.restart,
            c.wf(),
    {
        let mut cmds: Vec<String> = Vec::new();
        cmds.push("java -jar fabric-server-launch.jar".to_owned());
        let mut triggers: Vec<(String, Trigger)> = Vec::new();
        triggers.push(("startup".to_owned(), Trigger::Startup));
        Config {
            run: Some(cmds),
            status: Status { webhook: None },
            tokens: Tokens { github: None },
            triggers,
            min_restart_interval_seconds: default_min_restart_interval(),
            restart: default_restart(),
        }
    }
}

} // verus!
