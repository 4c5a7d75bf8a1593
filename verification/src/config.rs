//! Application configuration (read from `gitover.config.yaml` by the application).
use vstd::prelude::*;

verus! {

/// A custom command that can be run against the selected repository.
#[derive(Debug, Clone)]
pub struct RepoCommand {
    /// Name shown in the action menu.
    pub name: String,
    /// Shell command to execute (`$ROOT`, `$BRANCH` are substituted).
    pub cmd: String,
    /// Spawn without waiting and discard the output.
    pub background: bool,
}

/// General settings.
#[derive(Debug, Clone)]
pub struct GeneralConfig {
    /// Path to the git executable, overriding `git` on `$PATH`.
    pub git: Option<String>,
    /// Interval in seconds for the automatic background fetch (default 600, 0 disables it).
    pub auto_fetch_interval: Option<u64>,
    /// Path to the debug log file.
    pub debug_log: Option<String>,
    /// Sort paths case-sensitively (default: case-insensitively).
    pub case_sensitive_path_sorting: bool,
}

/// The whole configuration.
#[derive(Debug, Clone)]
pub struct Config {
    pub general: GeneralConfig,
    /// Custom repo commands shown at the bottom of the action menu.
    pub repo_commands: Vec<RepoCommand>,
}

/// Seconds between automatic fetches when the configuration does not say.
pub const DEFAULT_AUTO_FETCH_SECS: u64 = 600;

impl GeneralConfig {
    /// The automatic fetch interval in seconds: the configured value, or 600 when unset.
    /// 0 disables automatic fetching.
    pub fn auto_fetch_interval(&self) -> (res: u64)
        ensures
            res == (match self.auto_fetch_interval {
                Some(s) => s,
                None => DEFAULT_AUTO_FETCH_SECS,
            }),
    {
        match self.auto_fetch_interval {
            Some(s) => s,
            None => DEFAULT_AUTO_FETCH_SECS,
        }
    }

    /// Seconds until the next automatic fetch: the interval, or none when it is 0
    /// (automatic fetching disabled).
    pub fn auto_fetch_delay(&self) -> (res: Option<u64>)
        ensures
            res == (match self.auto_fetch_interval {
                Some(0) => None,
                Some(s) => Some(s),
                None => Some(DEFAULT_AUTO_FETCH_SECS),
            }),
    {
        let secs = self.auto_fetch_interval();
        if secs == 0 { None } else { Some(secs) }
    }
}

impl Default for GeneralConfig {
    /// No git override, no interval, no debug log, case-insensitive sorting.
    fn default() -> (res: Self)
        ensures
            res.git is None,
            res.auto_fetch_interval is None,
            res.debug_log is None,
            !res.case_sensitive_path_sorting,
    {
        GeneralConfig { git: None, auto_fetch_interval: None, debug_log: None, case_sensitive_path_sorting: false }
    }
}

impl Default for Config {
    /// Default general settings and no repo commands.
    fn default() -> (res: Self)
        ensures
            res.general.git is None,
            res.general.auto_fetch_interval is None,
            res.general.debug_log is None,
            !res.general.case_sensitive_path_sorting,
            res.repo_commands@.len() == 0,
    {
        Config { general: GeneralConfig::default(), repo_commands: Vec::new() }
    }
}

} // verus!
