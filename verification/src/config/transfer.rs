//! The configuration of a run that sends files, and the work that it gives
//! each host.

use crate::config::state::Config;
use crate::error::{ConfigError, ConfigErrorView};
use crate::json::{json_document, parse_json};
use crate::pairs::{OrderedMap, Pair};
use crate::pipeline::{is_transfer_plan, transfer_steps};
use crate::settings::{mapping_from, spec_mapping};
use crate::unit::{HostUnit, UnitView};
use vstd::prelude::*;

verus! {

/// The files of a run and how they are sent.
#[derive(Clone, Debug, PartialEq, Eq)]
pub struct TransferConfig {
    /// The file mapping, as it was given: one JSON text.
    pub files: Vec<String>,
    /// Whether the archives are compressed.
    pub compress: bool,
    /// The level of the compression.
    pub compress_level: i32,
}

/// The file mapping of a run as it was given: the first text of `files`,
/// read as JSON.
pub open spec fn spec_files(files: Seq<String>) -> Result<Seq<Pair>, ConfigErrorView> {
    if files.len() == 0 {
        Err(ConfigErrorView::NoFiles)
    } else {
        match json_document(files[0]@) {
            Ok(document) => spec_mapping(document),
            Err(cause) => Err(ConfigErrorView::Malformed { cause }),
        }
    }
}

/// The file mapping that a transfer works on: that of `files`, which must
/// hold a pair.
pub open spec fn spec_transfer_mapping(files: Seq<String>) -> Result<Seq<Pair>, ConfigErrorView> {
    match spec_files(files) {
        Ok(mapping) => if mapping.len() == 0 {
            Err(ConfigErrorView::EmptyMapping)
        } else {
            Ok(mapping)
        },
        Err(error) => Err(error),
    }
}

/// Whether `units` holds the work of a transfer of `mapping` for each of
/// `hosts`, in their order, each with archive names of its own.
pub open spec fn sends_files(
    units: Seq<HostUnit>,
    hosts: Seq<String>,
    mapping: Seq<Pair>,
    compress: bool,
    level: i32,
) -> bool {
    &&& units.len() == hosts.len()
    &&& forall|h: int|
        0 <= h < units.len() ==> (#[trigger] units[h])@ == UnitView::start(
            hosts[h]@,
            units[h]@.steps,
        ) && is_transfer_plan(units[h]@.steps, mapping, compress, level)
}

impl TransferConfig {
    /// The file mapping: a destination directory for each source pattern,
    /// in the order in which the patterns first occur.
    pub fn parse_files_json(&self) -> (mapping: Result<OrderedMap, ConfigError>)
        ensures
            match mapping {
                Ok(map) => spec_files(self.files@) == Ok::<Seq<Pair>, ConfigErrorView>(map@),
                Err(error) => spec_files(self.files@) == Err::<Seq<Pair>, ConfigErrorView>(
                    error@,
                ),
            },
    {
        if self.files.len() == 0 {
            return Err(ConfigError::NoFiles);
        }
        match parse_json(self.files[0].as_str()) {
            Ok(document) => mapping_from(&document),
            Err(cause) => Err(ConfigError::Malformed { cause }),
        }
    }

    /// The work of this transfer for each host of `cfg`: one unit for each,
    /// in their order, that opens the session and the file channel, sends
    /// the files of each pair of the mapping in its order, and closes both.
    ///
    /// Nothing is made where the mapping holds no pair.
    pub fn transfer(&self, cfg: &Config) -> (units: Result<Vec<HostUnit>, ConfigError>)
        ensures
            match units {
                Ok(units) => spec_transfer_mapping(self.files@) matches Ok(mapping) && sends_files(
                    units@,
                    cfg.hosts@,
                    mapping,
                    self.compress,
                    self.compress_level,
                ),
                Err(error) => spec_transfer_mapping(self.files@) == Err::<
                    Seq<Pair>,
                    ConfigErrorView,
                >(error@),
            },
    {
        let mapping = match self.parse_files_json() {
            Ok(mapping) => mapping,
            Err(error) => {
                return Err(error);
            },
        };
        if mapping.is_empty() {
            return Err(ConfigError::EmptyMapping);
        }
        let mut units: Vec<HostUnit> = Vec::new();
        let mut h: usize = 0;
        while h < cfg.hosts.len()
            invariant
                h <= cfg.hosts@.len(),
                units@.len() == h,
                forall|i: int|
                    0 <= i < h ==> (#[trigger] units@[i])@ == UnitView::start(
                        cfg.hosts@[i]@,
                        units@[i]@.steps,
                    ) && is_transfer_plan(
                        units@[i]@.steps,
                        mapping@,
                        self.compress,
                        self.compress_level,
                    ),
            decreases cfg.hosts@.len() - h,
        {
            let steps = transfer_steps(&mapping, self.compress, self.compress_level);
            units.push(HostUnit::new(cfg.hosts[h].clone(), steps));
            h += 1;
        }
        Ok(units)
    }
}

} // verus!
