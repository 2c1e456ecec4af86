//! Validation of path text against the file system.
use vstd::prelude::*;

verus! {

/// Why a path was refused.
#[derive(Debug, Clone, PartialEq, Eq)]
pub enum Error {
    PathNotUnicode,
    FileDoesNotExist(String),
    FileAlreadyExists(String),
}

/// Relies on `std::path::Path::to_str`: a path made from text is valid unicode,
/// so it yields that text.
#[verifier::external_body]
fn path_text(raw: &str) -> (r: Option<String>)
    ensures
        r is Some,
        r matches Some(s) ==> s@ == raw@,
{
    std::path::Path::new(raw).to_str().map(String::from)
}

/// Relies on `std::path::Path::exists`: whether the file system holds the path now.
#[verifier::external_body]
pub(crate) fn path_exists(raw: &str) -> bool {
    std::path::Path::new(raw).exists()
}

/// Relies on `std::path::Path::is_dir`: whether the path names a directory now.
#[verifier::external_body]
pub(crate) fn path_is_dir(raw: &str) -> bool {
    std::path::Path::new(raw).is_dir()
}

/// The path text, or `PathNotUnicode` when it cannot be read as text; text input
/// always passes.
fn check_path(raw_str: &str) -> (r: Result<String, Error>)
    ensures
        r matches Ok(p) && p@ == raw_str@,
{
    match path_text(raw_str) {
        Some(p) => Ok(p),
        None => Err(Error::PathNotUnicode),
    }
}

/// The verdict on a path that must exist, given whether it exists.
pub fn expect_existing(path: String, exists: bool) -> (r: Result<String, Error>)
    ensures
        exists ==> r == Ok::<String, Error>(path),
        !exists ==> r == Err::<String, Error>(Error::FileDoesNotExist(path)),
{
    if exists {
        Ok(path)
    } else {
        Err(Error::FileDoesNotExist(path))
    }
}

/// The verdict on a path that must not exist yet, given whether it exists.
pub fn expect_absent(path: String, exists: bool) -> (r: Result<String, Error>)
    ensures
        exists ==> r == Err::<String, Error>(Error::FileAlreadyExists(path)),
        !exists ==> r == Ok::<String, Error>(path),
{
    if exists {
        Err(Error::FileAlreadyExists(path))
    } else {
        Ok(path)
    }
}

/// The path, if it is text and exists on the file system.
pub fn existing_path(raw_str: &str) -> (r: Result<String, Error>)
    ensures
        r matches Ok(p) ==> p@ == raw_str@,
        r matches Err(e) ==> (e matches Error::FileDoesNotExist(p) && p@ == raw_str@),
{
    let path = check_path(raw_str)?;
    let exists = path_exists(path.as_str());
    expect_existing(path, exists)
}

/// The path, if it is text and does not exist on the file system yet.
pub fn non_existing_path(raw_str: &String) -> (r: Result<String, Error>)
    ensures
        r matches Ok(p) ==> p@ == raw_str@,
        r matches Err(e) ==> (e matches Error::FileAlreadyExists(p) && p@ == raw_str@),
{
    let path = check_path(raw_str.as_str())?;
    let exists = path_exists(path.as_str());
    expect_absent(path, exists)
}

} // verus!
