//! The configuration of a run that executes a script, and the work that it
//! gives each host.

use crate::config::state::Config;
use crate::config::{spec_parse_env, spec_script};
use crate::environment::{
    assignments, lemma_forwarded_are_exports, pair_views, push_forwarded, spec_assignment,
    spec_assignments, spec_forwarded,
};
use crate::error::{ConfigError, ConfigErrorView};
use crate::executor::{command_steps, spec_command_steps};
use crate::pairs::{OrderedMap, Pair};
use crate::text::{join, lemma_join_begins_with_first, spec_is_blank, spec_join, texts};
use crate::unit::{HostUnit, UnitView};
use vstd::prelude::*;

verus! {

/// The script of a run and its environment.
#[derive(Clone, Debug, PartialEq, Eq)]
pub struct ConnectConfig {
    /// The environment of the script.
    pub env: OrderedMap,
    /// The script, as it was given: one JSON text.
    pub script: Vec<String>,
}

/// The environment of a script as it is put before each command: an
/// `export` for each variable of `environment`, then one for each variable
/// of the process that is handed on, with `&&` between each two.
pub open spec fn spec_build_env(environment: Seq<Pair>, process: Seq<Pair>) -> Seq<char> {
    spec_join(
        spec_assignments(environment, "export "@) + spec_forwarded(
            process,
            "PLUGIN_"@,
            "export "@,
        ),
        " && "@,
    )
}

/// Commands run with the environment before them exactly when a variable
/// is set or handed on: the environment is blank if there is none, and
/// begins with an `export` if there is one.
pub proof fn lemma_environment_is_blank_without_variables(
    environment: Seq<Pair>,
    process: Seq<Pair>,
)
    ensures
        spec_is_blank(spec_build_env(environment, process)) <==> environment.len() == 0
            && spec_forwarded(process, "PLUGIN_"@, "export "@).len() == 0,
{
    let lines = spec_assignments(environment, "export "@) + spec_forwarded(
        process,
        "PLUGIN_"@,
        "export "@,
    );
    reveal_strlit("export ");
    if lines.len() > 0 {
        lemma_join_begins_with_first(lines, " && "@);
        lemma_forwarded_are_exports(process, "PLUGIN_"@, "export "@);
        let first = lines[0];
        assert(first[0] == 'e') by {
            assert(first.subrange(0, 7)[0] == "export "@[0]);
        }
    }
}

/// Whether `units` holds the work of a script for each of `hosts`, in their order.
pub open spec fn runs_script(
    units: Seq<HostUnit>,
    hosts: Seq<String>,
    commands: Seq<Seq<char>>,
    environment: Seq<char>,
    timeout: i32,
) -> bool {
    &&& units.len() == hosts.len()
    &&& forall|h: int|
        0 <= h < units.len() ==> (#[trigger] units[h])@ == UnitView::start(
            hosts[h]@,
            spec_command_steps(commands, environment, timeout),
        )
}

impl ConnectConfig {
    /// The environment as it is put before each command. `process` holds
    /// the variables of the process; those whose names begin with `PLUGIN_`
    /// are handed on, under their names without `PLUGIN_`.
    pub fn build_env(&self, process: &Vec<(String, String)>) -> (line: String)
        ensures
            line@ == spec_build_env(self.env@, pair_views(process@)),
    {
        let mut lines = assignments(&self.env, "export ");
        push_forwarded(&mut lines, process, "PLUGIN_", "export ");
        join(&lines, " && ")
    }

    /// The commands of the script.
    pub fn parse_script_json(&self) -> (commands: Result<Vec<String>, ConfigError>)
        ensures
            match commands {
                Ok(list) => spec_script(self.script@) == Ok::<Seq<Seq<char>>, ConfigErrorView>(
                    texts(list@),
                ),
                Err(error) => spec_script(self.script@) == Err::<Seq<Seq<char>>, ConfigErrorView>(
                    error@,
                ),
            },
    {
        if self.script.len() == 0 {
            return Err(ConfigError::NoCommands);
        }
        crate::config::parse_script_json(self.script[0].as_str())
    }

    /// The environment that `arg` holds as JSON.
    pub fn parse_env_json(arg: &str) -> (environment: Result<OrderedMap, ConfigError>)
        ensures
            match environment {
                Ok(map) => spec_parse_env(arg@) == Ok::<Seq<Pair>, ConfigErrorView>(map@),
                Err(error) => spec_parse_env(arg@) == Err::<Seq<Pair>, ConfigErrorView>(error@),
            },
    {
        crate::config::parse_env_json(arg)
    }

    /// The work of this script for each host of `cfg`: one unit for each,
    /// in their order, that opens the session, runs the commands in their
    /// order with the environment before each, and closes the session.
    ///
    /// Nothing is made where the script gives no commands.
    pub fn connect(&self, cfg: &Config, process: &Vec<(String, String)>) -> (units: Result<
        Vec<HostUnit>,
        ConfigError,
    >)
        ensures
            match units {
                Ok(units) => spec_script(self.script@) matches Ok(commands) && runs_script(
                    units@,
                    cfg.hosts@,
                    commands,
                    spec_build_env(self.env@, pair_views(process@)),
                    cfg.timeout,
                ),
                Err(error) => spec_script(self.script@) == Err::<Seq<Seq<char>>, ConfigErrorView>(
                    error@,
                ),
            },
    {
        let commands = match self.parse_script_json() {
            Ok(commands) => commands,
            Err(error) => {
                return Err(error);
            },
        };
        let environment = self.build_env(process);
        let mut units: Vec<HostUnit> = Vec::new();
        let mut h: usize = 0;
        while h < cfg.hosts.len()
            invariant
                h <= cfg.hosts@.len(),
                units@.len() == h,
                forall|i: int|
                    0 <= i < h ==> (#[trigger] units@[i])@ == UnitView::start(
                        cfg.hosts@[i]@,
                        spec_command_steps(texts(commands@), environment@, cfg.timeout),
                    ),
            decreases cfg.hosts@.len() - h,
        {
            let steps = command_steps(&commands, environment.as_str(), cfg.timeout);
            units.push(HostUnit::new(cfg.hosts[h].clone(), steps));
            h += 1;
        }
        Ok(units)
    }
}

} // verus!
