use vstd::prelude::*;

verus! {

/// The ways an operation on agent or command configuration can fail.
#[derive(Debug, PartialEq)]
pub enum ConfigError {
    /// A filesystem operation failed.
    Io(String),
    /// The structured document could not be parsed.
    Parse(String),
    /// An entity of that name exists already.
    AlreadyExists,
    /// The entity exists nowhere.
    NotFound,
    /// A file reference names no file.
    InvalidReference,
}

} // verus!
