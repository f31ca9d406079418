//! What can be wrong with a run's configuration before any host is contacted.

use vstd::prelude::*;

verus! {

/// A fault in the configuration of a run.
#[derive(Clone, Debug, PartialEq, Eq)]
pub enum ConfigError {
    /// No script was given.
    NoCommands,
    /// The script has no list of commands.
    MissingCommands,
    /// No file mapping was given.
    NoFiles,
    /// The file mapping has no entry with a source and a destination.
    EmptyMapping,
    /// A setting is not JSON, or not JSON of the shape that the setting has.
    Malformed { cause: String },
}

/// A [`ConfigError`] with its text as a sequence of characters.
pub enum ConfigErrorView {
    NoCommands,
    MissingCommands,
    NoFiles,
    EmptyMapping,
    Malformed { cause: Seq<char> },
}

impl View for ConfigError {
    type V = ConfigErrorView;

    open spec fn view(&self) -> ConfigErrorView {
        match *self {
            ConfigError::NoCommands => ConfigErrorView::NoCommands,
            ConfigError::MissingCommands => ConfigErrorView::MissingCommands,
            ConfigError::NoFiles => ConfigErrorView::NoFiles,
            ConfigError::EmptyMapping => ConfigErrorView::EmptyMapping,
            ConfigError::Malformed { cause } => ConfigErrorView::Malformed { cause: cause@ },
        }
    }
}

/// The line that tells a user of `error`.
pub open spec fn spec_message(error: ConfigErrorView) -> Seq<char> {
    match error {
        ConfigErrorView::NoCommands => "No commands to execute."@,
        ConfigErrorView::MissingCommands => "Missing settings:script:commands"@,
        ConfigErrorView::NoFiles => "No files provided to transfer."@,
        ConfigErrorView::EmptyMapping => "File list missing src or dst."@,
        ConfigErrorView::Malformed { cause } => cause,
    }
}

impl ConfigError {
    /// A fault in the shape of a setting, with `cause` as its text.
    pub fn malformed(cause: &str) -> (error: ConfigError)
        ensures
            error@ == (ConfigErrorView::Malformed { cause: cause@ }),
    {
        ConfigError::Malformed { cause: cause.to_owned() }
    }

    /// The line that tells a user of this error.
    pub fn message(&self) -> (line: String)
        ensures
            line@ == spec_message(self@),
    {
        match self {
            ConfigError::NoCommands => String::from_str("No commands to execute."),
            ConfigError::MissingCommands => String::from_str("Missing settings:script:commands"),
            ConfigError::NoFiles => String::from_str("No files provided to transfer."),
            ConfigError::EmptyMapping => String::from_str("File list missing src or dst."),
            ConfigError::Malformed { cause } => cause.clone(),
        }
    }

    /// The process status for a run that ends with this error.
    pub fn exit_status(&self) -> (status: i32)
        ensures
            status == crate::outcome::STATUS_NOTHING_SUPPLIED,
    {
        crate::outcome::STATUS_NOTHING_SUPPLIED
    }
}

} // verus!
