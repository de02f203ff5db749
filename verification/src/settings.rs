//! Application-level settings: the persisted configuration record, its
//! fixed location under the user's home directory, and the ancillary
//! records the surrounding shell exchanges with it.

use vstd::prelude::*;
use vstd::string::StringExecFns;

verus! {

/// Process-wide version-control identity, passed through to the external
/// version-control tool by the surrounding application.
pub struct GitConfig {
    pub user_name: String,
    pub user_email: String,
}

/// The persisted application configuration.
pub struct Config {
    pub git_config: GitConfig,
}

/// Proxy endpoints the shell may route traffic through.
pub struct ProxySettings {
    pub http_proxy: Option<String>,
    pub https_proxy: Option<String>,
    pub socks_proxy: Option<String>,
}

/// The shell's colour scheme.
pub enum Theme {
    Light,
    Dark,
    System,
}

impl Default for Config {
    /// The configuration written on first start: an empty identity.
    fn default() -> (r: Config)
        ensures
            r.git_config.user_name@ == Seq::<char>::empty(),
            r.git_config.user_email@ == Seq::<char>::empty(),
    {
        Config { git_config: GitConfig { user_name: String::new(), user_email: String::new() } }
    }
}

/// The fixed location of the persisted configuration file, under the
/// user's home directory.
pub open spec fn config_file_path_spec(home: Seq<char>) -> Seq<char> {
    home + "/.ssh-manager/config.json"@
}

/// Builds the configuration file path for the home directory `home`.
pub fn get_config_path(home: &str) -> (r: String)
    ensures
        r@ == config_file_path_spec(home@),
{
    let mut r = home.to_owned();
    r.append("/.ssh-manager/config.json");
    r
}

} // verus!
