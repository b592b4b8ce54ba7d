//! What the site generator decides about the files it meets: while it copies
//! the static files into the output directory, and while it unpacks an
//! archive of fonts. Reading and writing the files is the caller's part.

use vstd::prelude::*;

verus! {

/// What to do with one entry of the directory of static files.
#[derive(Debug, Clone, Copy, PartialEq, Eq, Structural)]
pub enum CopyStep {
    /// Leave the entry out.
    Skip,
    /// Stop: something stands at the target already.
    Refuse,
    /// Make the directory at the target and copy what is in it.
    Descend,
    /// Copy the file.
    Copy,
}

/// A file name that starts with a dot hides the entry, `.well-known` alone
/// excepted.
pub open spec fn is_hidden(name: Seq<char>) -> bool {
    name.len() > 0 && name[0] == '.' && name != ".well-known"@
}

/// The step for an entry: hidden entries are left out before anything else
/// is looked at, and nothing is ever written over.
pub open spec fn copy_step_for(name: Seq<char>, target_exists: bool, is_directory: bool) -> CopyStep {
    if is_hidden(name) {
        CopyStep::Skip
    } else if target_exists {
        CopyStep::Refuse
    } else if is_directory {
        CopyStep::Descend
    } else {
        CopyStep::Copy
    }
}

/// Whether a file name hides its entry.
pub fn hidden(name: &str) -> (r: bool)
    ensures
        r == is_hidden(name@),
{
    if name.unicode_len() == 0 {
        return false;
    }
    if name.get_char(0) != '.' {
        return false;
    }
    !(name.to_owned() == ".well-known".to_owned())
}

/// Decides what to do with an entry of the directory of static files, given
/// its name, whether something stands at its target, and whether it is a
/// directory.
pub fn copy_step(name: &str, target_exists: bool, is_directory: bool) -> (step: CopyStep)
    ensures
        step == copy_step_for(name@, target_exists, is_directory),
{
    if hidden(name) {
        CopyStep::Skip
    } else if target_exists {
        CopyStep::Refuse
    } else if is_directory {
        CopyStep::Descend
    } else {
        CopyStep::Copy
    }
}

/// What to do with one entry of an archive.
#[derive(Debug, Clone, Copy, PartialEq, Eq, Structural)]
pub enum UnpackStep {
    /// Leave the entry out.
    Skip,
    /// Make the directory, with those above it.
    MakeDirectory,
    /// Write the file, in a directory made for it if need be.
    WriteFile,
}

/// The step for an entry of an archive: one whose path would leave the
/// target directory is left out; a name that ends in a slash is that of a
/// directory.
pub open spec fn unpack_step_for(enclosed: bool, name: Seq<char>) -> UnpackStep {
    if !enclosed {
        UnpackStep::Skip
    } else if name.len() > 0 && name.last() == '/' {
        UnpackStep::MakeDirectory
    } else {
        UnpackStep::WriteFile
    }
}

/// Decides what to do with an entry of an archive, given whether its path
/// stays inside the target directory, and its name.
pub fn unpack_step(enclosed: bool, name: &str) -> (step: UnpackStep)
    ensures
        step == unpack_step_for(enclosed, name@),
{
    if !enclosed {
        return UnpackStep::Skip;
    }
    let n = name.unicode_len();
    if n > 0 && name.get_char(n - 1) == '/' {
        UnpackStep::MakeDirectory
    } else {
        UnpackStep::WriteFile
    }
}

} // verus!
