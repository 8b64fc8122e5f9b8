use book_library::catalog::{borrowed_count, data_path, default_library, Book, Library};
use book_library::menu::{menu_choice, MenuChoice};
use book_library::store::{plan_load, StoreError, StoredCatalog};

fn book(id: &str, total: u32, available: u32) -> Book {
    Book {
        id: id.to_string(),
        title: format!("Title {id}"),
        author: format!("Author {id}"),
        copies_total: total,
        copies_available: available,
    }
}

#[test]
fn data_path_is_fixed_file_name() {
    assert_eq!(data_path(), "library_data.json");
}

#[test]
fn default_library_has_four_curated_books() {
    let lib = default_library();
    assert_eq!(lib.books.len(), 4);
    let expected = [
        ("B001", "1984", "George Orwell", 3),
        ("B002", "Pride and Prejudice", "Jane Austen", 2),
        ("B003", "To Kill a Mockingbird", "Harper Lee", 4),
        ("B004", "The Great Gatsby", "F. Scott Fitzgerald", 2),
    ];
    for (b, (id, title, author, copies)) in lib.books.iter().zip(expected.iter()) {
        assert_eq!(b.id, *id);
        assert_eq!(b.title, *title);
        assert_eq!(b.author, *author);
        assert_eq!(b.copies_total, *copies);
        assert_eq!(b.copies_available, *copies);
    }
}

#[test]
fn borrowed_count_is_difference() {
    assert_eq!(borrowed_count(&book("X", 5, 2)), 3);
    assert_eq!(borrowed_count(&book("X", 3, 3)), 0);
    assert_eq!(borrowed_count(&book("X", 0, 0)), 0);
}

#[test]
fn borrowed_count_saturates_on_inconsistent_counts() {
    assert_eq!(borrowed_count(&book("X", 1, 4)), 0);
}

#[test]
fn load_missing_file_seeds_default_and_writes_it() {
    let plan = plan_load(StoredCatalog::Missing);
    assert_eq!(plan.library.books.len(), 4);
    assert_eq!(plan.library.books[0].id, "B001");
    assert_eq!(plan.library.books[3].id, "B004");
    assert!(plan.write_back);
    assert_eq!(plan.problem, None);
}

#[test]
fn load_malformed_file_recovers_with_default() {
    let plan = plan_load(StoredCatalog::Malformed);
    assert_eq!(plan.library.books.len(), 4);
    assert_eq!(plan.library.books[1].title, "Pride and Prejudice");
    assert!(plan.write_back);
    assert_eq!(plan.problem, Some(StoreError::Parse));
}

#[test]
fn load_unreadable_file_uses_default_without_writing() {
    let plan = plan_load(StoredCatalog::Unreadable);
    assert_eq!(plan.library.books.len(), 4);
    assert!(!plan.write_back);
    assert_eq!(plan.problem, Some(StoreError::Io));
}

#[test]
fn load_decoded_catalog_keeps_every_field_and_order() {
    let stored = Library { books: vec![book("Z9", 2, 1), book("A1", 1, 0), book("M5", 7, 7)] };
    let plan = plan_load(StoredCatalog::Decoded(stored));
    assert!(!plan.write_back);
    assert_eq!(plan.problem, None);
    let ids: Vec<&str> = plan.library.books.iter().map(|b| b.id.as_str()).collect();
    assert_eq!(ids, vec!["Z9", "A1", "M5"]);
    assert_eq!(plan.library.books[0].title, "Title Z9");
    assert_eq!(plan.library.books[0].author, "Author Z9");
    assert_eq!(plan.library.books[0].copies_total, 2);
    assert_eq!(plan.library.books[0].copies_available, 1);
    assert_eq!(plan.library.books[1].copies_available, 0);
    assert_eq!(plan.library.books[2].copies_total, 7);
}

#[test]
fn load_decoded_catalog_with_inconsistent_counts_is_reset() {
    let stored = Library { books: vec![book("Z9", 2, 1), book("A1", 1, 3)] };
    let plan = plan_load(StoredCatalog::Decoded(stored));
    assert_eq!(plan.library.books.len(), 4);
    assert_eq!(plan.library.books[0].id, "B001");
    assert!(plan.write_back);
    assert_eq!(plan.problem, Some(StoreError::Parse));
}

#[test]
fn load_empty_decoded_catalog_is_kept() {
    let plan = plan_load(StoredCatalog::Decoded(Library { books: Vec::new() }));
    assert!(plan.library.books.is_empty());
    assert!(!plan.write_back);
}

#[test]
fn menu_tokens_map_to_options() {
    assert_eq!(menu_choice("1"), Some(MenuChoice::ViewAvailable));
    assert_eq!(menu_choice("2"), Some(MenuChoice::ViewBorrowed));
    assert_eq!(menu_choice("3"), Some(MenuChoice::Borrow));
    assert_eq!(menu_choice("4"), Some(MenuChoice::Return));
    assert_eq!(menu_choice("5"), Some(MenuChoice::Exit));
    assert_eq!(menu_choice("6"), None);
    assert_eq!(menu_choice(""), None);
    assert_eq!(menu_choice("11"), None);
    assert_eq!(menu_choice("x"), None);
}
