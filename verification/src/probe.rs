//! What to make of a look at the file system.
//!
//! The look itself is the caller's: these functions take what was found and
//! give the verdict. A verdict is as stale as the look it rests on, for a
//! path can change at any moment after it was examined.

use crate::verdict::{Rejection, Verdict};
use vstd::prelude::*;

verus! {

/// The verdict on a path that is to be read as a file, from whether it names
/// a directory and from how an attempt to open it for reading went: `Ok`, or
/// the system's message.
pub open spec fn readable_file_verdict(is_dir: bool, opened: Result<(), String>) -> Verdict {
    if is_dir {
        Err(Rejection::IsDirectory)
    } else {
        match opened {
            Ok(()) => Ok(()),
            Err(cause) => Err(Rejection::Unreadable { cause }),
        }
    }
}

/// The verdict on a path that is to be written into as a directory, from
/// whether it names a directory and whether the user may write to it.
pub open spec fn output_dir_verdict(is_dir: bool, writable: bool) -> Verdict {
    if !is_dir {
        Err(Rejection::NotDirectory)
    } else if !writable {
        Err(Rejection::NotWritable)
    } else {
        Ok(())
    }
}

/// Decides whether a path can serve as an input file. A directory is
/// rejected whatever opening it gave; any other path is accepted exactly
/// when it could be opened, and rejected with the system's message when not.
pub fn path_readable_file(is_dir: bool, opened: Result<(), String>) -> (verdict: Verdict)
    ensures
        verdict == readable_file_verdict(is_dir, opened),
{
    if is_dir {
        return Err(Rejection::IsDirectory);
    }
    match opened {
        Ok(()) => Ok(()),
        Err(cause) => Err(Rejection::Unreadable { cause }),
    }
}

/// Decides whether a path can serve as an output directory: it has to be a
/// directory, and one that the user may write to.
pub fn path_output_dir(is_dir: bool, writable: bool) -> (verdict: Verdict)
    ensures
        verdict == output_dir_verdict(is_dir, writable),
{
    if !is_dir {
        Err(Rejection::NotDirectory)
    } else if !writable {
        Err(Rejection::NotWritable)
    } else {
        Ok(())
    }
}

} // verus!
