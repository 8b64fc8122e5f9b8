use book_library::catalog::{default_library, Book, Library};
use book_library::inventory::{
    available_indices, borrow_book, borrowed_indices, return_book, InventoryError,
};

fn book(id: &str, total: u32, available: u32) -> Book {
    Book {
        id: id.to_string(),
        title: format!("Title {id}"),
        author: format!("Author {id}"),
        copies_total: total,
        copies_available: available,
    }
}

fn counts(lib: &Library) -> Vec<(u32, u32)> {
    lib.books.iter().map(|b| (b.copies_total, b.copies_available)).collect()
}

#[test]
fn available_and_borrowed_indices_follow_catalog_order() {
    let lib = Library {
        books: vec![book("A", 2, 2), book("B", 1, 0), book("C", 3, 1), book("D", 0, 0)],
    };
    assert_eq!(available_indices(&lib), vec![0, 2]);
    assert_eq!(borrowed_indices(&lib), vec![1, 2]);
}

#[test]
fn indices_of_empty_catalog_are_empty() {
    let lib = Library { books: Vec::new() };
    assert!(available_indices(&lib).is_empty());
    assert!(borrowed_indices(&lib).is_empty());
}

#[test]
fn borrow_decrements_and_returns_updated_book() {
    let mut lib = default_library();
    let b = borrow_book(&mut lib, 0).ok().unwrap();
    assert_eq!(b.id, "B001");
    assert_eq!(b.copies_available, 2);
    assert_eq!(lib.books[0].copies_available, 2);
    assert_eq!(lib.books[1].copies_available, 2);
}

#[test]
fn return_increments_and_returns_updated_book() {
    let mut lib = Library { books: vec![book("A", 3, 1)] };
    let b = return_book(&mut lib, 0).ok().unwrap();
    assert_eq!(b.copies_available, 2);
    assert_eq!(lib.books[0].copies_available, 2);
}

#[test]
fn borrow_then_return_restores_counts() {
    let mut lib = Library { books: vec![book("A", 3, 2), book("B", 1, 1)] };
    let before = counts(&lib);
    assert!(borrow_book(&mut lib, 0).is_ok());
    assert!(return_book(&mut lib, 0).is_ok());
    assert_eq!(counts(&lib), before);
    assert!(borrow_book(&mut lib, 1).is_ok());
    assert!(return_book(&mut lib, 1).is_ok());
    assert_eq!(counts(&lib), before);
}

#[test]
fn borrow_with_no_copies_fails_and_leaves_catalog() {
    let mut lib = Library { books: vec![book("A", 2, 0), book("B", 1, 1)] };
    let before = counts(&lib);
    assert_eq!(borrow_book(&mut lib, 0).err(), Some(InventoryError::NoCopiesAvailable));
    assert_eq!(counts(&lib), before);
}

#[test]
fn return_with_all_copies_present_fails_and_leaves_catalog() {
    let mut lib = Library { books: vec![book("A", 2, 2), book("B", 0, 0)] };
    let before = counts(&lib);
    assert_eq!(return_book(&mut lib, 0).err(), Some(InventoryError::AllCopiesPresent));
    assert_eq!(return_book(&mut lib, 1).err(), Some(InventoryError::AllCopiesPresent));
    assert_eq!(counts(&lib), before);
}

#[test]
fn borrow_or_return_out_of_range_is_not_found() {
    let mut lib = default_library();
    let before = counts(&lib);
    assert_eq!(borrow_book(&mut lib, 4).err(), Some(InventoryError::NotFound));
    assert_eq!(return_book(&mut lib, 99).err(), Some(InventoryError::NotFound));
    assert_eq!(counts(&lib), before);
}

#[test]
fn borrow_at_largest_count_stays_in_range() {
    let mut lib = Library { books: vec![book("A", u32::MAX, u32::MAX)] };
    assert_eq!(return_book(&mut lib, 0).err(), Some(InventoryError::AllCopiesPresent));
    assert_eq!(borrow_book(&mut lib, 0).ok().unwrap().copies_available, u32::MAX - 1);
    assert_eq!(return_book(&mut lib, 0).ok().unwrap().copies_available, u32::MAX);
}

#[test]
fn counts_stay_within_bounds_through_operations() {
    let mut lib = default_library();
    for step in 0..40usize {
        let i = step % 4;
        if step % 3 == 0 {
            let _ = return_book(&mut lib, i);
        } else {
            let _ = borrow_book(&mut lib, i);
        }
        for b in &lib.books {
            assert!(b.copies_available <= b.copies_total);
        }
    }
}

#[test]
fn seeded_b001_runs_out_after_three_borrows() {
    let mut lib = default_library();
    assert_eq!(lib.books[0].id, "B001");
    assert_eq!(lib.books[0].title, "1984");
    assert_eq!(lib.books[0].copies_total, 3);
    assert_eq!(lib.books[0].copies_available, 3);
    assert_eq!(borrow_book(&mut lib, 0).ok().unwrap().copies_available, 2);
    assert_eq!(lib.books[0].copies_available, 2);
    assert!(borrow_book(&mut lib, 0).is_ok());
    assert!(borrow_book(&mut lib, 0).is_ok());
    assert_eq!(lib.books[0].copies_available, 0);
    assert_eq!(available_indices(&lib), vec![1, 2, 3]);
    assert_eq!(borrow_book(&mut lib, 0).err(), Some(InventoryError::NoCopiesAvailable));
    assert_eq!(lib.books[0].copies_available, 0);
}
