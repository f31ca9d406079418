//! The configuration of a run that executes a script, in one piece.

pub mod connect;
pub mod state;
pub mod transfer;

use crate::environment::{assignments, spec_assignments};
use crate::error::{ConfigError, ConfigErrorView};
use crate::json::{json_document, parse_json};
use crate::pairs::{OrderedMap, Pair};
use crate::session::{is_session_of, session_settings, SessionSettings};
use crate::settings::{commands_from, environment_from, spec_commands, spec_environment};
use crate::text::{join, spec_join, texts};
use std::sync::Arc;
use vstd::prelude::*;

verus! {

/// The port of the hosts where none is given.
pub const DEFAULT_PORT: u16 = 3022;

/// The number of seconds that one command may take where none is given.
pub const DEFAULT_TIMEOUT: i32 = 120;

/// Whether archives are compressed where nothing is said of it.
pub const DEFAULT_COMPRESS: bool = true;

/// The level of the compression where none is given.
pub const DEFAULT_COMPRESS_LEVEL: i32 = 13;

/// The configuration of a run that executes a script on a set of hosts.
#[derive(Clone, Debug, PartialEq, Eq)]
pub struct Config {
    /// The user that the sessions are opened as.
    pub username: String,
    /// The hosts to run the script on.
    pub hosts: Vec<String>,
    /// The proxy that the hosts are reached through.
    pub proxy: String,
    /// The cluster of the hosts; that of the proxy if none is given.
    pub cluster: String,
    /// The port of the hosts.
    pub port: u16,
    /// The directory that holds the session configuration.
    pub data_path: String,
    /// The number of seconds that one command may take.
    pub timeout: i32,
    /// The environment of the script.
    pub env: OrderedMap,
    /// The script: as it was given, one JSON text; once resolved, its commands.
    pub script: Vec<String>,
    /// Whether diagnostics are reported.
    pub debug: bool,
}

/// The cluster of a run: `cluster`, or `proxy` where none is given.
pub open spec fn spec_cluster(cluster: Seq<char>, proxy: Seq<char>) -> Seq<char> {
    if cluster.len() == 0 {
        proxy
    } else {
        cluster
    }
}

/// The cluster of a run: `cluster`, or `proxy` where none is given.
pub fn resolve_cluster(cluster: String, proxy: &String) -> (resolved: String)
    ensures
        resolved@ == spec_cluster(cluster@, proxy@),
{
    if cluster.as_str().unicode_len() == 0 {
        proxy.clone()
    } else {
        cluster
    }
}

/// The commands that the JSON text `arg` gives as a script.
pub open spec fn spec_parse_script(arg: Seq<char>) -> Result<Seq<Seq<char>>, ConfigErrorView> {
    match json_document(arg) {
        Ok(document) => spec_commands(document),
        Err(cause) => Err(ConfigErrorView::Malformed { cause }),
    }
}

/// The environment that the JSON text `arg` gives; none for the empty text.
pub open spec fn spec_parse_env(arg: Seq<char>) -> Result<Seq<Pair>, ConfigErrorView> {
    if arg.len() == 0 {
        Ok(Seq::empty())
    } else {
        match json_document(arg) {
            Ok(document) => spec_environment(document),
            Err(cause) => Err(ConfigErrorView::Malformed { cause }),
        }
    }
}

/// The commands of the script that `arg` holds as JSON: the strings under
/// `commands` of the object that it is.
pub fn parse_script_json(arg: &str) -> (commands: Result<Vec<String>, ConfigError>)
    ensures
        match commands {
            Ok(list) => spec_parse_script(arg@) == Ok::<Seq<Seq<char>>, ConfigErrorView>(
                texts(list@),
            ),
            Err(error) => spec_parse_script(arg@) == Err::<Seq<Seq<char>>, ConfigErrorView>(
                error@,
            ),
        },
{
    match parse_json(arg) {
        Ok(document) => commands_from(&document),
        Err(cause) => Err(ConfigError::Malformed { cause }),
    }
}

/// The environment that `arg` holds as JSON: one variable for each member
/// of the object that it is.
pub fn parse_env_json(arg: &str) -> (environment: Result<OrderedMap, ConfigError>)
    ensures
        match environment {
            Ok(map) => spec_parse_env(arg@) == Ok::<Seq<Pair>, ConfigErrorView>(map@),
            Err(error) => spec_parse_env(arg@) == Err::<Seq<Pair>, ConfigErrorView>(error@),
        },
{
    if arg.unicode_len() == 0 {
        return Ok(OrderedMap::new());
    }
    match parse_json(arg) {
        Ok(document) => environment_from(&document),
        Err(cause) => Err(ConfigError::Malformed { cause }),
    }
}

impl Config {
    /// The parameters that the sessions of this run are opened with.
    pub fn get_sb(&self) -> (settings: SessionSettings)
        ensures
            is_session_of(settings, self.port, self.username@, self.data_path@),
    {
        session_settings(self.port, self.username.as_str(), self.data_path.as_str())
    }

    /// The environment as it is put before each command: `KEY=VALUE` for
    /// each variable, with a blank between each two.
    pub fn build_env(&self) -> (line: String)
        ensures
            line@ == spec_join(spec_assignments(self.env@, Seq::empty()), " "@),
    {
        let lines = assignments(&self.env, "");
        proof {
            reveal_strlit("");
            assert(""@ =~= Seq::<char>::empty());
        }
        join(&lines, " ")
    }
}

/// The script of a run as it was given: the first text of `script`, read as JSON.
pub open spec fn spec_script(script: Seq<String>) -> Result<Seq<Seq<char>>, ConfigErrorView> {
    if script.len() == 0 {
        Err(ConfigErrorView::NoCommands)
    } else {
        spec_parse_script(script[0]@)
    }
}

/// Resolves the configuration that was read from the command line: the
/// script is replaced by its commands, and a run without a cluster gets
/// that of its proxy. Nothing else changes.
pub fn get_config(args: Config) -> (resolved: Result<Arc<Config>, ConfigError>)
    ensures
        match resolved {
            Ok(config) => {
                &&& spec_script(args.script@) == Ok::<Seq<Seq<char>>, ConfigErrorView>(
                    texts(config.script@),
                )
                &&& config.cluster@ == spec_cluster(args.cluster@, args.proxy@)
                &&& *config == (Config { script: config.script, cluster: config.cluster, ..args })
            },
            Err(error) => spec_script(args.script@) == Err::<Seq<Seq<char>>, ConfigErrorView>(
                error@,
            ),
        },
{
    if args.script.len() == 0 {
        return Err(ConfigError::NoCommands);
    }
    let script = match parse_script_json(args.script[0].as_str()) {
        Ok(script) => script,
        Err(error) => {
            return Err(error);
        },
    };
    let Config { username, hosts, proxy, cluster, port, data_path, timeout, env, script: _, debug } =
        args;
    let cluster = resolve_cluster(cluster, &proxy);
    Ok(
        Arc::new(
            Config { username, hosts, proxy, cluster, port, data_path, timeout, env, script, debug },
        ),
    )
}

} // verus!
