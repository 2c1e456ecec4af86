//! Arguments of the duration probe.
use vstd::prelude::*;

use crate::cmd::texts;
use crate::error::ErrorKind;
use crate::path::existing_path;

verus! {

/// The probe's arguments for the duration of `path`.
pub open spec fn probe_texts(path: Seq<char>) -> Seq<Seq<char>> {
    seq![
        "-v"@, "error"@,
        "-show_entries"@, "format=duration"@,
        "-of"@, "default=noprint_wrappers=1:nokey=1"@,
        path,
    ]
}

/// The arguments that make the probe print the duration of the existing file
/// `path_str`, in seconds, alone on a line.
pub fn duration_args(path_str: &str) -> (r: Result<Vec<String>, ErrorKind>)
    ensures
        r matches Ok(v) ==> texts(v@) == probe_texts(path_str@),
        r matches Err(e) ==> (e matches ErrorKind::Path(crate::path::Error::FileDoesNotExist(p))
            && p@ == path_str@),
{
    let path = match existing_path(path_str) {
        Ok(p) => p,
        Err(e) => {
            return Err(ErrorKind::Path(e));
        },
    };
    let v = vec![
        String::from_str("-v"),
        String::from_str("error"),
        String::from_str("-show_entries"),
        String::from_str("format=duration"),
        String::from_str("-of"),
        String::from_str("default=noprint_wrappers=1:nokey=1"),
        path,
    ];
    proof {
        assert(texts(v@) =~= probe_texts(path_str@));
    }
    Ok(v)
}

} // verus!
