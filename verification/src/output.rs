//! The rules for the file that a document is written to.
//!
//! The library opens no file. It decides from plain values what the caller
//! is to do: whether the chosen name is acceptable, and whether a file that
//! is already there may be replaced.
use crate::text::chars_of;
use vstd::prelude::*;

verus! {

/// Why a document cannot be written to the chosen file.
#[derive(Debug, Clone, Copy, PartialEq, Eq)]
pub enum OutputError {
    /// The file name has an extension, and it is not `json`.
    WrongExtension,
    /// A file is at the path already, and overwriting was not asked for.
    AlreadyExists,
}

impl OutputError {
    /// What the user is told.
    pub open spec fn text(self) -> Seq<char> {
        match self {
            OutputError::WrongExtension => "Output file must have .json extension"@,
            OutputError::AlreadyExists =>
                "File already exists at the current location. Try selecting a different output file or re-running with --force-overwrite"@,
        }
    }

    /// What the user is told.
    pub fn message(&self) -> (r: String)
        ensures
            r@ == self.text(),
    {
        match self {
            OutputError::WrongExtension => "Output file must have .json extension".to_owned(),
            OutputError::AlreadyExists =>
                "File already exists at the current location. Try selecting a different output file or re-running with --force-overwrite".to_owned(),
        }
    }
}

/// The one extension that an output file may have.
pub open spec fn json() -> Seq<char> {
    seq!['j', 's', 'o', 'n']
}

/// Checks the extension of the output file's name, given without its dot.
///
/// A name without extension is accepted and gets `.json` appended: the
/// result is `Ok(true)`. The extension `json` is accepted as it is, with
/// `Ok(false)`. Any other extension is refused.
pub fn check_extension(extension: Option<&str>) -> (r: Result<bool, OutputError>)
    ensures
        r == (match extension {
            None => Ok::<bool, OutputError>(true),
            Some(ext) => if ext@ == json() {
                Ok(false)
            } else {
                Err(OutputError::WrongExtension)
            },
        }),
{
    match extension {
        None => Ok(true),
        Some(ext) => {
            let buf = chars_of(ext);
            if buf.len() == 4 && buf[0] == 'j' && buf[1] == 's' && buf[2] == 'o' && buf[3] == 'n' {
                assert(ext@ =~= json());
                Ok(false)
            } else {
                Err(OutputError::WrongExtension)
            }
        },
    }
}

/// Decides what happens where a file is at the output path already: it is
/// replaced if `force_overwrite` is set, and left alone with an error if not.
pub fn on_existing_file(force_overwrite: bool) -> (r: Result<(), OutputError>)
    ensures
        r == (if force_overwrite {
            Ok::<(), OutputError>(())
        } else {
            Err(OutputError::AlreadyExists)
        }),
{
    if force_overwrite {
        Ok(())
    } else {
        Err(OutputError::AlreadyExists)
    }
}

} // verus!
