//! How a reader reacts to malformed data.

use vstd::prelude::*;

verus! {

/// The reaction of one structural check to data that does not pass it.
#[derive(Clone, Copy, PartialEq, Eq, Debug, Structural)]
pub enum ReadMode {
    /// Reading fails with the error that belongs to the check.
    Error,
    /// The offending field is replaced by the value that passes the check, and reading goes on.
    Fix,
    /// The field is taken as found and reading goes on.
    ///
    /// A file read this way may break the relations between its header and its variable:
    /// whoever asks for this mode answers for what is done with the result.
    Ignore,
}

impl ReadMode {
    /// The mode in which a reader fails on malformed data.
    pub fn error() -> (mode: Self)
        ensures
            mode == ReadMode::Error,
    {
        ReadMode::Error
    }

    /// The mode in which a reader repairs malformed data and proceeds where it can.
    pub fn fix() -> (mode: Self)
        ensures
            mode == ReadMode::Fix,
    {
        ReadMode::Fix
    }

    /// The mode in which a reader keeps malformed data as it is.
    ///
    /// This gives up the guarantees that reading otherwise establishes; see
    /// [`ReadMode::Ignore`].
    pub fn ignore() -> (mode: Self)
        ensures
            mode == ReadMode::Ignore,
    {
        ReadMode::Ignore
    }
}

impl Default for ReadMode {
    fn default() -> (mode: Self)
        ensures
            mode == ReadMode::Error,
    {
        ReadMode::Error
    }
}

/// Options handed to the deserializer of a variable's payload.
#[derive(Clone, Copy, PartialEq, Eq, Debug, Structural)]
pub struct VariableReadOptions;

impl Default for VariableReadOptions {
    fn default() -> (options: Self)
        ensures
            options == VariableReadOptions,
    {
        VariableReadOptions
    }
}

/// One [`ReadMode`] for each check made while a file is read, and the options for its
/// variable.
#[derive(Clone, Copy, PartialEq, Eq, Debug, Structural)]
pub struct FileReadOptions {
    pub signature: ReadMode,
    pub variable_length: ReadMode,
    pub variable: VariableReadOptions,
    pub checksum: ReadMode,
}

impl FileReadOptions {
    /// The options with which every check fails on malformed data.
    pub open spec fn strict() -> FileReadOptions {
        FileReadOptions {
            signature: ReadMode::Error,
            variable_length: ReadMode::Error,
            variable: VariableReadOptions,
            checksum: ReadMode::Error,
        }
    }
}

impl Default for FileReadOptions {
    fn default() -> (options: Self)
        ensures
            options == FileReadOptions::strict(),
    {
        FileReadOptions {
            signature: ReadMode::Error,
            variable_length: ReadMode::Error,
            variable: VariableReadOptions,
            checksum: ReadMode::Error,
        }
    }
}

} // verus!
