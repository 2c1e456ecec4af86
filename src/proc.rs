//! Classification of a finished extractor process.
use vstd::prelude::*;

verus! {

/// Why running the extractor did not give usable output.
#[derive(Debug, Clone, PartialEq, Eq)]
pub enum OutputError {
    /// The process could not be launched; the description of the failure.
    Io(String),
    /// The process exited with this code and this (trimmed) standard error.
    NonzeroExit(i32, String),
    /// The process was ended by a signal.
    SigTerm,
    /// The output was not UTF-8 text.
    Utf8,
    /// The output text did not have the expected shape.
    Parse(String),
}

/// What a finished process handed back.
#[derive(Debug, Clone)]
pub struct ProcOutput {
    /// The exit code, absent when a signal ended the process.
    pub code: Option<i32>,
    pub stdout: Vec<u8>,
    pub stderr: Vec<u8>,
}

/// The text that UTF-8 decoding gives for these bytes, if they are UTF-8.
pub uninterp spec fn utf8_text(b: Seq<u8>) -> Option<Seq<char>>;

/// The text without its leading and trailing white space.
pub uninterp spec fn trimmed(s: Seq<char>) -> Seq<char>;

/// Relies on `std::str::from_utf8`: succeeds exactly on UTF-8 bytes, with their text.
#[verifier::external_body]
fn decode_utf8(b: &[u8]) -> (r: Option<String>)
    ensures
        match r {
            Some(s) => utf8_text(b@) == Some(s@),
            None => utf8_text(b@) is None,
        },
{
    std::str::from_utf8(b).ok().map(String::from)
}

/// Relies on `str::trim`: the text without leading and trailing white space.
#[verifier::external_body]
fn trim_text(s: &str) -> (r: String)
    ensures
        r@ == trimmed(s@),
{
    s.trim().to_string()
}

/// The standard error text reported with a non-zero exit.
pub open spec fn stderr_text(b: Seq<u8>) -> Seq<char> {
    match utf8_text(b) {
        Some(t) => trimmed(t),
        None => trimmed(Seq::empty()),
    }
}

/// Success exactly on exit code 0; a non-zero code carries the trimmed standard
/// error text; no code means the process was ended by a signal.
pub fn check_output(out: ProcOutput) -> (r: Result<ProcOutput, OutputError>)
    ensures
        out.code == Some(0i32) ==> r == Ok::<ProcOutput, OutputError>(out),
        out.code is None ==> r == Err::<ProcOutput, OutputError>(OutputError::SigTerm),
        match out.code {
            Some(c) => c != 0 ==> (r matches Err(OutputError::NonzeroExit(k, t)) && k == c && t@
                == stderr_text(out.stderr@)),
            None => true,
        },
{
    match out.code {
        Some(0) => Ok(out),
        Some(code) => {
            let text = match decode_utf8(out.stderr.as_slice()) {
                Some(t) => trim_text(t.as_str()),
                None => trim_text(""),
            };
            proof {
                reveal_strlit("");
                assert(""@ =~= Seq::<char>::empty());
            }
            Err(OutputError::NonzeroExit(code, text))
        },
        None => Err(OutputError::SigTerm),
    }
}

/// The standard output as text.
pub fn dump(output: ProcOutput) -> (r: Result<String, OutputError>)
    ensures
        match utf8_text(output.stdout@) {
            Some(t) => r matches Ok(s) && s@ == t,
            None => r == Err::<String, OutputError>(OutputError::Utf8),
        },
{
    match decode_utf8(output.stdout.as_slice()) {
        Some(s) => Ok(s),
        None => Err(OutputError::Utf8),
    }
}

} // verus!
