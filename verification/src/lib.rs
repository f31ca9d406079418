//! Dispatch of shell commands and file transfers across a set of remote hosts.
//!
//! A run has one unit of work per host. A unit is a list of steps: open the
//! session, run the commands of a script or send the files of a mapping,
//! close the session. The library decides which step a unit starts next and
//! what its outcome is; the program that embeds it performs each step and
//! hands back what came of it. When every unit has reported, the library
//! gives the status that the process ends with.
//!
//! * [`config`] holds the configuration of a run and turns it into units.
//! * [`executor`] lays out the steps of a script, [`pipeline`] those of a
//!   file mapping; [`remote`], [`archive`] and [`upload`] hold the paths,
//!   names and chunks that a transfer works with.
//! * [`unit`] runs the steps of one host: in their order, ended by the first
//!   failure that matters, with what was acquired released on every way out.
//!   [`cleanup`] shows that no local file is left of a transfer.
//! * [`dispatch`] takes in the outcomes of the hosts as they complete.
//! * [`json`], [`settings`], [`environment`], [`pairs`] and [`text`] read
//!   and write the texts that the settings of a run come in.
//!
//! Three things are taken on trust, each behind one function: the JSON
//! parser, the parent of a path, and the random part of an archive's name.

pub mod archive;
pub mod cleanup;
pub mod config;
pub mod dispatch;
pub mod environment;
pub mod error;
pub mod executor;
pub mod json;
pub mod outcome;
pub mod pairs;
pub mod pipeline;
pub mod remote;
pub mod session;
pub mod settings;
pub mod step;
pub mod text;
pub mod unit;
pub mod upload;
