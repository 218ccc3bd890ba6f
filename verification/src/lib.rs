//! Validators that decide, before anything is written, whether a path or a
//! file name can be used on every major file system: ext4, NTFS, HFS+, APFS,
//! FAT32 and exFAT alike.
//!
//! A candidate is a sequence of bytes, as POSIX hands paths over, and need
//! not be valid text. Every validator answers with a [`Verdict`]: acceptance,
//! or the first rule that the candidate broke.

pub mod charset;
pub mod components;
pub mod filename;
pub mod path;
pub mod probe;
pub mod reserved;
pub mod text;
pub mod verdict;

pub use filename::filename_valid_portable;
pub use path::path_valid_portable;
pub use probe::{path_output_dir, path_readable_file};
pub use verdict::{Rejection, Verdict, MAX_NAME_LEN, MAX_PATH_LEN};
