//! The library's error taxonomy.
use vstd::prelude::*;

use crate::path::Error as PathError;
use crate::proc::OutputError;
use crate::server::Error as ServerError;

verus! {

/// Any failure of the library, wrapping the failure of the layer below.
#[derive(Debug, Clone, PartialEq, Eq)]
pub enum ErrorKind {
    /// Malformed caller input.
    ArgumentError,
    /// A file-system failure, with its description.
    Io(String),
    Path(PathError),
    Output(OutputError),
    Server(ServerError),
    /// A broken internal invariant, with its description.
    Unhandled(String),
}

} // verus!
