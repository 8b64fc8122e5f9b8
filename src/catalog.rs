use vstd::prelude::*;

verus! {

/// Name of the file that holds the catalog.
pub open spec fn data_file_name() -> Seq<char> {
    seq!['l', 'i', 'b', 'r', 'a', 'r', 'y', '_', 'd', 'a', 't', 'a', '.', 'j', 's', 'o', 'n']
}

/// Path of the catalog file, relative to the working directory.
pub fn data_path() -> (r: &'static str)
    ensures
        r@ == data_file_name(),
{
    let r = "library_data.json";
    proof {
        reveal_strlit("library_data.json");
    }
    assert(r@ =~= data_file_name());
    r
}

/// One catalog entry: a lendable title with its copy counts.
pub struct Book {
    pub id: String,
    pub title: String,
    pub author: String,
    pub copies_total: u32,
    pub copies_available: u32,
}

/// Mathematical model of a [`Book`].
pub ghost struct BookView {
    pub id: Seq<char>,
    pub title: Seq<char>,
    pub author: Seq<char>,
    pub copies_total: u32,
    pub copies_available: u32,
}

impl View for Book {
    type V = BookView;

    open spec fn view(&self) -> BookView {
        BookView {
            id: self.id@,
            title: self.title@,
            author: self.author@,
            copies_total: self.copies_total,
            copies_available: self.copies_available,
        }
    }
}

impl BookView {
    /// The copy counts are consistent: no more copies on the shelf than exist.
    pub open spec fn wf(self) -> bool {
        self.copies_available <= self.copies_total
    }

    /// Number of copies currently lent out (zero when the counts are inconsistent).
    pub open spec fn borrowed(self) -> nat {
        if self.copies_available <= self.copies_total {
            (self.copies_total - self.copies_available) as nat
        } else {
            0
        }
    }
}

impl Book {
    /// Makes an independent copy of this entry.
    pub fn duplicate(&self) -> (r: Book)
        ensures
            r@ == self@,
    {
        Book {
            id: self.id.clone(),
            title: self.title.clone(),
            author: self.author.clone(),
            copies_total: self.copies_total,
            copies_available: self.copies_available,
        }
    }
}

/// The whole catalog, in display order.
pub struct Library {
    pub books: Vec<Book>,
}

impl View for Library {
    type V = Seq<BookView>;

    open spec fn view(&self) -> Seq<BookView> {
        self.books@.map_values(|b: Book| b@)
    }
}

impl Library {
    /// Every entry has consistent copy counts.
    pub open spec fn wf(&self) -> bool {
        forall|i: int| 0 <= i < self@.len() ==> (#[trigger] self@[i]).wf()
    }
}

/// An entry with every copy on the shelf.
pub open spec fn shelved(id: Seq<char>, title: Seq<char>, author: Seq<char>, copies: u32) -> BookView {
    BookView { id, title, author, copies_total: copies, copies_available: copies }
}

/// The catalog that is seeded when no usable stored catalog exists.
pub open spec fn default_books() -> Seq<BookView> {
    seq![
        shelved(seq!['B', '0', '0', '1'], seq!['1', '9', '8', '4'],
            seq!['G', 'e', 'o', 'r', 'g', 'e', ' ', 'O', 'r', 'w', 'e', 'l', 'l'], 3),
        shelved(seq!['B', '0', '0', '2'],
            seq!['P', 'r', 'i', 'd', 'e', ' ', 'a', 'n', 'd', ' ', 'P', 'r', 'e', 'j', 'u', 'd', 'i', 'c', 'e'],
            seq!['J', 'a', 'n', 'e', ' ', 'A', 'u', 's', 't', 'e', 'n'], 2),
        shelved(seq!['B', '0', '0', '3'],
            seq!['T', 'o', ' ', 'K', 'i', 'l', 'l', ' ', 'a', ' ', 'M', 'o', 'c', 'k', 'i', 'n', 'g', 'b', 'i', 'r', 'd'],
            seq!['H', 'a', 'r', 'p', 'e', 'r', ' ', 'L', 'e', 'e'], 4),
        shelved(seq!['B', '0', '0', '4'],
            seq!['T', 'h', 'e', ' ', 'G', 'r', 'e', 'a', 't', ' ', 'G', 'a', 't', 's', 'b', 'y'],
            seq!['F', '.', ' ', 'S', 'c', 'o', 't', 't', ' ', 'F', 'i', 't', 'z', 'g', 'e', 'r', 'a', 'l', 'd'], 2),
    ]
}

fn shelved_book(id: &str, title: &str, author: &str, copies: u32) -> (r: Book)
    ensures
        r@ == shelved(id@, title@, author@, copies),
{
    Book {
        id: id.to_owned(),
        title: title.to_owned(),
        author: author.to_owned(),
        copies_total: copies,
        copies_available: copies,
    }
}

/// The curated four-entry catalog, every copy on the shelf.
pub fn default_library() -> (r: Library)
    ensures
        r@ == default_books(),
        r.wf(),
{
    let b1 = shelved_book("B001", "1984", "George Orwell", 3);
    let b2 = shelved_book("B002", "Pride and Prejudice", "Jane Austen", 2);
    let b3 = shelved_book("B003", "To Kill a Mockingbird", "Harper Lee", 4);
    let b4 = shelved_book("B004", "The Great Gatsby", "F. Scott Fitzgerald", 2);
    proof {
        reveal_strlit("B001");
        reveal_strlit("1984");
        reveal_strlit("George Orwell");
        reveal_strlit("B002");
        reveal_strlit("Pride and Prejudice");
        reveal_strlit("Jane Austen");
        reveal_strlit("B003");
        reveal_strlit("To Kill a Mockingbird");
        reveal_strlit("Harper Lee");
        reveal_strlit("B004");
        reveal_strlit("The Great Gatsby");
        reveal_strlit("F. Scott Fitzgerald");
        let d = default_books();
        assert(b1@.id =~= d[0].id && b1@.title =~= d[0].title && b1@.author =~= d[0].author);
        assert(b2@.id =~= d[1].id && b2@.title =~= d[1].title && b2@.author =~= d[1].author);
        assert(b3@.id =~= d[2].id && b3@.title =~= d[2].title && b3@.author =~= d[2].author);
        assert(b4@.id =~= d[3].id && b4@.title =~= d[3].title && b4@.author =~= d[3].author);
    }
    let mut books: Vec<Book> = Vec::new();
    books.push(b1);
    books.push(b2);
    books.push(b3);
    books.push(b4);
    let r = Library { books };
    assert(r@ =~= default_books());
    r
}

/// Number of copies of `book` that are lent out; saturates at zero.
pub fn borrowed_count(book: &Book) -> (r: u32)
    ensures
        r as nat == book@.borrowed(),
{
    book.copies_total.saturating_sub(book.copies_available)
}

} // verus!
