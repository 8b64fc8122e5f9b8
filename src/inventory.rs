use vstd::prelude::*;

use crate::catalog::{Book, BookView, Library, borrowed_count};

verus! {

/// Why a borrow or a return was refused.
#[derive(Clone, Copy, Debug, PartialEq, Eq, Structural)]
pub enum InventoryError {
    /// The position names no entry of the catalog.
    NotFound,
    /// Every copy of the entry is already lent out.
    NoCopiesAvailable,
    /// Every copy of the entry is already on the shelf.
    AllCopiesPresent,
}

/// The entry has a copy on the shelf.
pub open spec fn is_available(b: BookView) -> bool {
    b.copies_available > 0
}

/// The entry has a copy lent out.
pub open spec fn is_lent(b: BookView) -> bool {
    b.borrowed() > 0
}

/// Positions of the entries of `books` that satisfy `keep`, in catalog order.
pub open spec fn positions_where(books: Seq<BookView>, keep: spec_fn(BookView) -> bool) -> Seq<usize>
    decreases books.len(),
{
    if books.len() == 0 {
        seq![]
    } else {
        let earlier = positions_where(books.drop_last(), keep);
        if keep(books.last()) {
            earlier.push((books.len() - 1) as usize)
        } else {
            earlier
        }
    }
}

/// Positions of the entries with a copy on the shelf.
pub open spec fn available_positions(books: Seq<BookView>) -> Seq<usize> {
    positions_where(books, |b: BookView| is_available(b))
}

/// Positions of the entries with a copy lent out.
pub open spec fn lent_positions(books: Seq<BookView>) -> Seq<usize> {
    positions_where(books, |b: BookView| is_lent(b))
}

/// The entry with one copy fewer on the shelf.
pub open spec fn take_copy(b: BookView) -> BookView {
    BookView { copies_available: (b.copies_available - 1) as u32, ..b }
}

/// The entry with one copy more on the shelf.
pub open spec fn put_copy(b: BookView) -> BookView {
    BookView { copies_available: (b.copies_available + 1) as u32, ..b }
}

/// The catalog after lending one copy of the entry at `index`, or why that is refused.
pub open spec fn borrow_outcome(books: Seq<BookView>, index: int) -> Result<Seq<BookView>, InventoryError> {
    if !(0 <= index < books.len()) {
        Err(InventoryError::NotFound)
    } else if books[index].copies_available == 0 {
        Err(InventoryError::NoCopiesAvailable)
    } else {
        Ok(books.update(index, take_copy(books[index])))
    }
}

/// The catalog after taking back one copy of the entry at `index`, or why that is refused.
pub open spec fn return_outcome(books: Seq<BookView>, index: int) -> Result<Seq<BookView>, InventoryError> {
    if !(0 <= index < books.len()) {
        Err(InventoryError::NotFound)
    } else if books[index].copies_available >= books[index].copies_total {
        Err(InventoryError::AllCopiesPresent)
    } else {
        Ok(books.update(index, put_copy(books[index])))
    }
}

/// Positions, in catalog order, of the entries with at least one copy on the shelf.
pub fn available_indices(library: &Library) -> (r: Vec<usize>)
    ensures
        r@ == available_positions(library@),
{
    let mut r: Vec<usize> = Vec::new();
    let n = library.books.len();
    let mut i: usize = 0;
    while i < n
        invariant
            n == library@.len(),
            i <= n,
            r@ == available_positions(library@.subrange(0, i as int)),
        decreases n - i,
    {
        let ghost before = library@.subrange(0, i as int);
        let ghost after = library@.subrange(0, i + 1);
        assert(after.drop_last() =~= before);
        if library.books[i].copies_available > 0 {
            r.push(i);
        }
        i = i + 1;
    }
    assert(library@.subrange(0, n as int) =~= library@);
    r
}

/// Positions, in catalog order, of the entries with at least one copy lent out.
pub fn borrowed_indices(library: &Library) -> (r: Vec<usize>)
    ensures
        r@ == lent_positions(library@),
{
    let mut r: Vec<usize> = Vec::new();
    let n = library.books.len();
    let mut i: usize = 0;
    while i < n
        invariant
            n == library@.len(),
            i <= n,
            r@ == lent_positions(library@.subrange(0, i as int)),
        decreases n - i,
    {
        let ghost before = library@.subrange(0, i as int);
        let ghost after = library@.subrange(0, i + 1);
        assert(after.drop_last() =~= before);
        if borrowed_count(&library.books[i]) > 0 {
            r.push(i);
        }
        i = i + 1;
    }
    assert(library@.subrange(0, n as int) =~= library@);
    r
}

/// Lends one copy of the entry at `index`; on success returns the updated entry.
/// On failure the catalog is left as it was.
pub fn borrow_book(library: &mut Library, index: usize) -> (r: Result<Book, InventoryError>)
    ensures
        match borrow_outcome(old(library)@, index as int) {
            Ok(books) => r is Ok && final(library)@ == books && r->Ok_0@ == books[index as int],
            Err(e) => r == Err::<Book, InventoryError>(e) && final(library)@ == old(library)@,
        },
        old(library).wf() ==> final(library).wf(),
{
    if index >= library.books.len() {
        return Err(InventoryError::NotFound);
    }
    if library.books[index].copies_available == 0 {
        return Err(InventoryError::NoCopiesAvailable);
    }
    let ghost before = library@;
    library.books[index].copies_available = library.books[index].copies_available - 1;
    assert(library@ =~= before.update(index as int, take_copy(before[index as int])));
    Ok(library.books[index].duplicate())
}

/// Takes back one copy of the entry at `index`; on success returns the updated entry.
/// On failure the catalog is left as it was.
pub fn return_book(library: &mut Library, index: usize) -> (r: Result<Book, InventoryError>)
    ensures
        match return_outcome(old(library)@, index as int) {
            Ok(books) => r is Ok && final(library)@ == books && r->Ok_0@ == books[index as int],
            Err(e) => r == Err::<Book, InventoryError>(e) && final(library)@ == old(library)@,
        },
        old(library).wf() ==> final(library).wf(),
{
    if index >= library.books.len() {
        return Err(InventoryError::NotFound);
    }
    if library.books[index].copies_available >= library.books[index].copies_total {
        return Err(InventoryError::AllCopiesPresent);
    }
    let ghost before = library@;
    library.books[index].copies_available = library.books[index].copies_available + 1;
    assert(library@ =~= before.update(index as int, put_copy(before[index as int])));
    Ok(library.books[index].duplicate())
}

/// Lending a copy and then taking it back leaves every entry as it was.
pub proof fn lemma_borrow_then_return(books: Seq<BookView>, index: int)
    requires
        0 <= index < books.len(),
        books[index].wf(),
        borrow_outcome(books, index) is Ok,
    ensures
        return_outcome(borrow_outcome(books, index)->Ok_0, index) == Ok::<Seq<BookView>, InventoryError>(books),
{
    let lent = borrow_outcome(books, index)->Ok_0;
    assert(lent.update(index, put_copy(lent[index])) =~= books);
}

/// Borrowing an entry with no copy on the shelf is refused, and the catalog stays as it was.
pub proof fn lemma_borrow_none_left(books: Seq<BookView>, index: int)
    requires
        0 <= index < books.len(),
        books[index].copies_available == 0,
    ensures
        borrow_outcome(books, index) == Err::<Seq<BookView>, InventoryError>(InventoryError::NoCopiesAvailable),
{
}

/// Returning an entry with every copy on the shelf is refused, and the catalog stays as it was.
pub proof fn lemma_return_all_present(books: Seq<BookView>, index: int)
    requires
        0 <= index < books.len(),
        books[index].copies_available == books[index].copies_total,
    ensures
        return_outcome(books, index) == Err::<Seq<BookView>, InventoryError>(InventoryError::AllCopiesPresent),
{
}

/// Borrowing and returning keep every entry's counts consistent.
pub proof fn lemma_outcomes_keep_counts(books: Seq<BookView>, index: int)
    requires
        forall|i: int| 0 <= i < books.len() ==> (#[trigger] books[i]).wf(),
    ensures
        borrow_outcome(books, index) is Ok ==> forall|i: int|
            0 <= i < books.len() ==> (#[trigger] borrow_outcome(books, index)->Ok_0[i]).wf(),
        return_outcome(books, index) is Ok ==> forall|i: int|
            0 <= i < books.len() ==> (#[trigger] return_outcome(books, index)->Ok_0[i]).wf(),
{
}

} // verus!
