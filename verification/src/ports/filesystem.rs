use vstd::prelude::*;

verus! {

/// Errors that can occur during filesystem operations.
#[derive(Debug, Clone, Copy, PartialEq, Eq, Structural)]
pub enum FsError {
    NotFound,
    PermissionDenied,
    IoError,
}

impl FsError {
    /// The variant's name, as `{:?}` prints it.
    pub open spec fn spec_debug_name(self) -> Seq<char> {
        match self {
            FsError::NotFound => "NotFound"@,
            FsError::PermissionDenied => "PermissionDenied"@,
            FsError::IoError => "IoError"@,
        }
    }

    /// The variant's name, as `{:?}` prints it.
    pub fn debug_name(&self) -> (s: &'static str)
        ensures
            s@ == self.spec_debug_name(),
    {
        match self {
            FsError::NotFound => "NotFound",
            FsError::PermissionDenied => "PermissionDenied",
            FsError::IoError => "IoError",
        }
    }
}

/// The characters of each name of a listing.
pub open spec fn names_view(v: Vec<String>) -> Seq<Seq<char>> {
    v@.map_values(|s: String| s@)
}

/// The listing of a `list` call, as sequences of characters.
pub open spec fn list_result(r: Result<Vec<String>, FsError>) -> Result<Seq<Seq<char>>, FsError> {
    match r {
        Ok(v) => Ok(names_view(v)),
        Err(e) => Err(e),
    }
}

/// The contents of a `read` call, as a sequence.
pub open spec fn read_result(r: Result<Vec<u8>, FsError>) -> Result<Seq<u8>, FsError> {
    match r {
        Ok(v) => Ok(v@),
        Err(e) => Err(e),
    }
}

/// Port (trait) that abstracts all filesystem interactions.
///
/// An adapter's abstract state is its view; the spec functions say what each
/// operation answers, and to which state it moves, as functions of that view.
pub trait FileSystemPort: View + Sized {
    spec fn read_spec(m: Self::V, path: Seq<char>) -> Result<Seq<u8>, FsError>;

    spec fn write_spec(m: Self::V, path: Seq<char>, data: Seq<u8>) -> (Self::V, Result<(), FsError>);

    spec fn delete_spec(m: Self::V, path: Seq<char>) -> (Self::V, Result<(), FsError>);

    spec fn list_spec(m: Self::V, path: Seq<char>) -> Result<Seq<Seq<char>>, FsError>;

    spec fn exists_spec(m: Self::V, path: Seq<char>) -> bool;

    /// Read the full contents of the file at `path`.
    fn read(&self, path: &str) -> (r: Result<Vec<u8>, FsError>)
        ensures
            read_result(r) == Self::read_spec(self@, path@),
    ;

    /// Write `data` to `path`, creating the file if it does not exist.
    fn write(&mut self, path: &str, data: &[u8]) -> (r: Result<(), FsError>)
        ensures
            (final(self)@, r) == Self::write_spec(old(self)@, path@, data@),
    ;

    /// Delete the file at `path`.
    fn delete(&mut self, path: &str) -> (r: Result<(), FsError>)
        ensures
            (final(self)@, r) == Self::delete_spec(old(self)@, path@),
    ;

    /// List the names of entries under directory `path`.
    fn list(&self, path: &str) -> (r: Result<Vec<String>, FsError>)
        ensures
            list_result(r) == Self::list_spec(self@, path@),
    ;

    /// Return true if `path` exists in the filesystem.
    fn path_exists(&self, path: &str) -> (r: bool)
        ensures
            r == Self::exists_spec(self@, path@),
    ;
}

} // verus!
