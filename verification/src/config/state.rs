//! The configuration of a run: what it does, and where.

use crate::config::connect::ConnectConfig;
use crate::config::transfer::TransferConfig;
use crate::config::{resolve_cluster, spec_cluster};
use crate::session::{is_session_of, session_settings, SessionSettings};
use std::sync::Arc;
use vstd::prelude::*;

verus! {

/// What a run does on its hosts.
#[derive(Clone, Debug, PartialEq, Eq)]
pub enum SubCommand {
    /// It runs a script.
    Connect(ConnectConfig),
    /// It sends files.
    Transfer(TransferConfig),
}

/// The configuration of a run.
#[derive(Clone, Debug, PartialEq, Eq)]
pub struct Config {
    /// What the run does.
    pub cmd: SubCommand,
    /// The user that the sessions are opened as.
    pub username: String,
    /// The hosts of the run.
    pub hosts: Vec<String>,
    /// The proxy that the hosts are reached through.
    pub proxy: String,
    /// The cluster of the hosts; that of the proxy if none is given.
    pub cluster: String,
    /// The port of the hosts.
    pub port: u16,
    /// The directory that holds the session configuration.
    pub data_path: String,
    /// Whether diagnostics are reported.
    pub debug: bool,
    /// The number of seconds that one command may take.
    pub timeout: i32,
}

impl Config {
    /// The parameters that the sessions of this run are opened with.
    pub fn get_sb(&self) -> (settings: SessionSettings)
        ensures
            is_session_of(settings, self.port, self.username@, self.data_path@),
    {
        session_settings(self.port, self.username.as_str(), self.data_path.as_str())
    }
}

/// Resolves the configuration that was read from the command line: a run
/// without a cluster gets that of its proxy. Nothing else changes.
pub fn get_config(args: Config) -> (resolved: Arc<Config>)
    ensures
        resolved.cluster@ == spec_cluster(args.cluster@, args.proxy@),
        *resolved == (Config { cluster: resolved.cluster, ..args }),
{
    let Config { cmd, username, hosts, proxy, cluster, port, data_path, debug, timeout } = args;
    let cluster = resolve_cluster(cluster, &proxy);
    Arc::new(Config { cmd, username, hosts, proxy, cluster, port, data_path, debug, timeout })
}

} // verus!
