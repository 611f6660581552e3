//! Filesystem entries as a walk observes them, and the check made of the root.

use vstd::prelude::*;
use vstd::string::*;

verus! {

/// What kind of object a path names. A symbolic link is reported as itself,
/// never as what it points to.
#[derive(Clone, Copy, Debug, PartialEq, Eq, Structural)]
pub enum EntryKind {
    File,
    Directory,
    Symlink,
    Other,
}

/// A path and its kind, as observed when the walk reached it.
#[derive(Clone, Debug, PartialEq, Eq)]
pub struct Entry {
    pub path: String,
    pub kind: EntryKind,
}

/// The mathematical content of an [`Entry`].
pub struct EntryView {
    pub path: Seq<char>,
    pub kind: EntryKind,
}

impl View for Entry {
    type V = EntryView;

    open spec fn view(&self) -> EntryView {
        EntryView { path: self.path@, kind: self.kind }
    }
}

impl DeepView for Entry {
    type V = EntryView;

    open spec fn deep_view(&self) -> EntryView {
        self@
    }
}

/// What a run can start from.
#[derive(Clone, Copy, Debug, PartialEq, Eq, Structural)]
pub enum RootKind {
    File,
    Directory,
}

/// Why a path cannot be the root of a run.
#[derive(Clone, Copy, Debug, PartialEq, Eq, Structural)]
pub enum RootError {
    /// Nothing exists at the path.
    NotFound,
    /// Something exists there that is neither a regular file nor a directory.
    UnsupportedType,
}

/// The verdict on a root of which the filesystem says whether it `exists` and
/// of what `kind` it is. Existence is asked first.
pub open spec fn root_kind(exists: bool, kind: EntryKind) -> Result<RootKind, RootError> {
    if !exists {
        Err(RootError::NotFound)
    } else {
        match kind {
            EntryKind::File => Ok(RootKind::File),
            EntryKind::Directory => Ok(RootKind::Directory),
            EntryKind::Symlink => Err(RootError::UnsupportedType),
            EntryKind::Other => Err(RootError::UnsupportedType),
        }
    }
}

/// Decides whether a run can start from a root.
pub fn classify(exists: bool, kind: EntryKind) -> (verdict: Result<RootKind, RootError>)
    ensures
        verdict == root_kind(exists, kind),
{
    if !exists {
        Err(RootError::NotFound)
    } else {
        match kind {
            EntryKind::File => Ok(RootKind::File),
            EntryKind::Directory => Ok(RootKind::Directory),
            EntryKind::Symlink => Err(RootError::UnsupportedType),
            EntryKind::Other => Err(RootError::UnsupportedType),
        }
    }
}

/// The sentence that reports that `path` cannot be the root of a run.
pub open spec fn root_error_text(error: RootError, path: Seq<char>) -> Seq<char> {
    match error {
        RootError::NotFound => "Path '"@ + path + "' does not exist"@,
        RootError::UnsupportedType => "Path is neither a file nor a directory"@,
    }
}

impl RootError {
    /// The sentence that reports this error for the root `path`.
    pub fn message(&self, path: &str) -> (text: String)
        ensures
            text@ == root_error_text(*self, path@),
    {
        match self {
            RootError::NotFound => {
                let mut text = String::from_str("Path '");
                text.append(path);
                text.append("' does not exist");
                text
            },
            RootError::UnsupportedType => String::from_str("Path is neither a file nor a directory"),
        }
    }
}

} // verus!
