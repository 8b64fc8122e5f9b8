use vstd::prelude::*;

use crate::catalog::{BookView, Library, default_books, default_library};

verus! {

/// Why the stored catalog could not be used, or could not be written.
#[derive(Clone, Copy, Debug, PartialEq, Eq, Structural)]
pub enum StoreError {
    /// The file could not be read or written.
    Io,
    /// The file's contents are not a well-formed catalog.
    Parse,
}

/// What was found at the storage location when the catalog was loaded.
pub enum StoredCatalog {
    /// No file exists.
    Missing,
    /// A file exists but could not be read.
    Unreadable,
    /// The file was read but does not decode as a catalog.
    Malformed,
    /// The file decoded as this catalog.
    Decoded(Library),
}

/// The catalog to work with after a load, and what the caller still has to do.
pub struct LoadPlan {
    /// The catalog for the session.
    pub library: Library,
    /// The caller should write `library` back to storage (best effort).
    pub write_back: bool,
    /// A problem to report as a warning; never fatal.
    pub problem: Option<StoreError>,
}

/// The catalog a load yields: the stored one when usable, the default one otherwise.
pub open spec fn loaded_books(stored: StoredCatalog) -> Seq<BookView> {
    match stored {
        StoredCatalog::Decoded(lib) => if lib.wf() {
            lib@
        } else {
            default_books()
        },
        _ => default_books(),
    }
}

/// The default catalog is written back when no file exists or when its contents are unusable.
pub open spec fn writes_back(stored: StoredCatalog) -> bool {
    match stored {
        StoredCatalog::Missing => true,
        StoredCatalog::Unreadable => false,
        StoredCatalog::Malformed => true,
        StoredCatalog::Decoded(lib) => !lib.wf(),
    }
}

/// The warning a load reports, if any.
pub open spec fn load_problem(stored: StoredCatalog) -> Option<StoreError> {
    match stored {
        StoredCatalog::Missing => None,
        StoredCatalog::Unreadable => Some(StoreError::Io),
        StoredCatalog::Malformed => Some(StoreError::Parse),
        StoredCatalog::Decoded(lib) => if lib.wf() {
            None
        } else {
            Some(StoreError::Parse)
        },
    }
}

/// Whether every entry of `library` has consistent copy counts.
pub fn counts_consistent(library: &Library) -> (r: bool)
    ensures
        r == library.wf(),
{
    let n = library.books.len();
    let mut i: usize = 0;
    while i < n
        invariant
            n == library@.len(),
            i <= n,
            forall|j: int| 0 <= j < i ==> (#[trigger] library@[j]).wf(),
        decreases n - i,
    {
        if library.books[i].copies_available > library.books[i].copies_total {
            assert(!library@[i as int].wf());
            return false;
        }
        i = i + 1;
    }
    true
}

/// Decides what a load yields from what was found at the storage location. It never fails:
/// a missing file gives the default catalog, to be written back; an unreadable one gives the
/// default catalog with an I/O warning; a malformed one, or one whose copy counts are
/// inconsistent, gives the default catalog with a parse warning, to be written back over it.
pub fn plan_load(stored: StoredCatalog) -> (r: LoadPlan)
    ensures
        r.library@ == loaded_books(stored),
        r.library.wf(),
        r.write_back == writes_back(stored),
        r.problem == load_problem(stored),
{
    match stored {
        StoredCatalog::Missing => LoadPlan { library: default_library(), write_back: true, problem: None },
        StoredCatalog::Unreadable => LoadPlan {
            library: default_library(),
            write_back: false,
            problem: Some(StoreError::Io),
        },
        StoredCatalog::Malformed => LoadPlan {
            library: default_library(),
            write_back: true,
            problem: Some(StoreError::Parse),
        },
        StoredCatalog::Decoded(lib) => {
            if counts_consistent(&lib) {
                LoadPlan { library: lib, write_back: false, problem: None }
            } else {
                LoadPlan {
                    library: default_library(),
                    write_back: true,
                    problem: Some(StoreError::Parse),
                }
            }
        },
    }
}

/// With no stored file, a load yields the four-entry default catalog and writes it out.
pub proof fn lemma_missing_seeds_default()
    ensures
        loaded_books(StoredCatalog::Missing) == default_books(),
        default_books().len() == 4,
        writes_back(StoredCatalog::Missing),
        load_problem(StoredCatalog::Missing) is None,
{
}

/// A malformed file yields the default catalog; the parse failure is only a warning.
pub proof fn lemma_malformed_recovers()
    ensures
        loaded_books(StoredCatalog::Malformed) == default_books(),
        writes_back(StoredCatalog::Malformed),
        load_problem(StoredCatalog::Malformed) == Some(StoreError::Parse),
{
}

/// A catalog with consistent counts that decodes from storage is the catalog loaded, every
/// entry and its order kept.
pub proof fn lemma_decoded_catalog_kept(library: Library)
    requires
        library.wf(),
    ensures
        loaded_books(StoredCatalog::Decoded(library)) == library@,
        !writes_back(StoredCatalog::Decoded(library)),
        load_problem(StoredCatalog::Decoded(library)) is None,
{
}

} // verus!
