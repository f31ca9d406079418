//! How the session to a host is opened.

use crate::text::followed_by;
use vstd::prelude::*;

verus! {

/// What to do with the key of a host that is not known yet.
#[derive(Clone, Copy, Debug, PartialEq, Eq, Structural)]
pub enum KnownHosts {
    /// Refuse the host.
    Strict,
    /// Take the key, and remember it.
    Add,
    /// Take the key.
    Accept,
}

/// The parameters that every session of a run is opened with.
#[derive(Clone, Debug, PartialEq, Eq)]
pub struct SessionSettings {
    pub port: u16,
    pub user: String,
    pub config_file: String,
    pub known_hosts: KnownHosts,
    pub compression: bool,
}

/// The path of the session configuration in the directory `data_path`.
pub open spec fn spec_config_file(data_path: Seq<char>) -> Seq<char> {
    data_path + "/ssh_config"@
}

/// Whether `settings` are those of a run as `user` on `port`, with its
/// session configuration under `data_path`: keys of unknown hosts are
/// taken, and the session is compressed.
pub open spec fn is_session_of(
    settings: SessionSettings,
    port: u16,
    user: Seq<char>,
    data_path: Seq<char>,
) -> bool {
    &&& settings.port == port
    &&& settings.user@ == user
    &&& settings.config_file@ == spec_config_file(data_path)
    &&& settings.known_hosts == KnownHosts::Accept
    &&& settings.compression
}

/// The parameters of the sessions of a run as `user` on `port`, with its
/// session configuration under `data_path`.
pub fn session_settings(port: u16, user: &str, data_path: &str) -> (settings: SessionSettings)
    ensures
        is_session_of(settings, port, user@, data_path@),
{
    SessionSettings {
        port,
        user: user.to_owned(),
        config_file: followed_by(data_path, "/ssh_config"),
        known_hosts: KnownHosts::Accept,
        compression: true,
    }
}

} // verus!
