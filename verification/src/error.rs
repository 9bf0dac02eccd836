//! Store errors.

use vstd::prelude::*;

verus! {

/// Failure of a store operation.  The in-memory store itself cannot fail;
/// the variants cover what the surrounding process reports when opening or
/// driving a persistent backing: a path that is a directory, a backing
/// error, an i/o error, a poisoned lock, or a query with no row to return.
#[derive(Clone, Debug)]
pub enum DatabaseError {
    IsDirectoryError { path: String },
    SqlError { description: String },
    IoError { description: String },
    LockError,
    NoData,
}

impl DatabaseError {
    /// The store path names a directory, not a file.
    pub fn is_directory(path: String) -> (r: DatabaseError)
        ensures
            r matches DatabaseError::IsDirectoryError { path: p } && p@ == path@,
    {
        DatabaseError::IsDirectoryError { path }
    }

    /// A query that should have produced a row produced none.
    pub fn no_data() -> (r: DatabaseError)
        ensures
            r is NoData,
    {
        DatabaseError::NoData
    }

    /// Short description of the error kind.
    pub fn description(&self) -> (r: &'static str)
        ensures
            self is IsDirectoryError ==> r@ == "Database path is directory"@,
            self is SqlError ==> r@ == "SQL error"@,
            self is IoError ==> r@ == "IO error"@,
            self is LockError ==> r@ == "Mutex lock error"@,
            self is NoData ==> r@ == "No data"@,
    {
        match self {
            DatabaseError::IsDirectoryError { .. } => "Database path is directory",
            DatabaseError::SqlError { .. } => "SQL error",
            DatabaseError::IoError { .. } => "IO error",
            DatabaseError::LockError => "Mutex lock error",
            DatabaseError::NoData => "No data",
        }
    }
}

} // verus!
