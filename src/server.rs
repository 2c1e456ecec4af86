//! The request-facing layer: the cache coordinator and its plain decisions.
use vstd::prelude::*;

use crate::error::ErrorKind;

verus! {

/// Failures of the serving layer.
#[derive(Debug, Clone, PartialEq, Eq)]
pub enum Error {
    Unhandled(String),
}

impl Error {
    /// An unhandled failure with this description.
    pub fn unhandled(s: String) -> (r: Self)
        ensures
            r == Error::Unhandled(s),
    {
        Error::Unhandled(s)
    }
}

/// The serving front for one source file.
#[derive(Debug)]
pub struct FrameServer {
    file: String,
}

impl FrameServer {
    /// A server for the given source file.
    pub fn new(file: String) -> (r: Result<FrameServer, Error>)
        ensures
            r matches Ok(s) && s.file() == file@,
    {
        Ok(FrameServer { file })
    }

    /// The source file's path.
    pub closed spec fn file(&self) -> Seq<char> {
        self.file@
    }

    /// The source file's path.
    pub fn file_path(&self) -> (r: &str)
        ensures
            r@ == self.file(),
    {
        self.file.as_str()
    }
}

/// The step between `n` evenly spaced frames from `from` to `to`, in milliseconds.
pub fn range_step(from: usize, to: usize, n: usize) -> (r: Result<usize, ErrorKind>)
    ensures
        n > 0 && from <= to ==> r == Ok::<usize, ErrorKind>(((to - from) / n as int) as usize),
        !(n > 0 && from <= to) ==> r == Err::<usize, ErrorKind>(ErrorKind::ArgumentError),
{
    if n == 0 || to < from {
        Err(ErrorKind::ArgumentError)
    } else {
        Ok((to - from) / n)
    }
}

} // verus!
