//! The spec directory `--infer-entities` names, for whichever command named it.
//!
//! Reading its two files is not opening a store: they are configuration, read and never written.

use vstd::prelude::*;
use vstd::string::*;
use vstd::utf8::*;

use crate::cli::error::{config_fault, Error};
use crate::path::{joined, utf8_lossy, OsPath};

verus! {

/// What an identifier is, inside the directory `--infer-entities` names.
pub const ENTITIES_FILE: &'static str = "entities.yaml";

/// When prose is evidence that one was meant, in the same directory.
pub const EXTRACTORS_FILE: &'static str = "extractors.yaml";

/// A file of the spec directory that could not be read, naming what the directory is expected to be.
pub fn unreadable(dir: &OsPath, file: &str, cause: &str) -> (error: Error)
    ensures
        error@ == config_fault(
            "--infer-entities "@ + utf8_lossy(joined(dir@, encode_utf8(file@))) + ": "@ + cause@
                + ". It names a spec directory, which is where "@ + ENTITIES_FILE@ + " and "@
                + EXTRACTORS_FILE@ + " live — the same pair the deployment this talks to reads"@,
        ),
{
    let path = dir.join(&OsPath::from_text(file));
    Error::Config(
        String::from_str("--infer-entities ").concat(path.display().as_str()).concat(
            ": ",
        ).concat(cause).concat(". It names a spec directory, which is where ").concat(
            ENTITIES_FILE,
        ).concat(" and ").concat(EXTRACTORS_FILE).concat(
            " live — the same pair the deployment this talks to reads",
        ),
    )
}

/// A spec file that was read and could not be used.
pub fn unusable(dir: &OsPath, file: &str, cause: &str) -> (error: Error)
    ensures
        error@ == config_fault(
            "--infer-entities "@ + utf8_lossy(joined(dir@, encode_utf8(file@))) + ": "@ + cause@,
        ),
{
    let path = dir.join(&OsPath::from_text(file));
    Error::Config(
        String::from_str("--infer-entities ").concat(path.display().as_str()).concat(
            ": ",
        ).concat(cause),
    )
}

} // verus!
