//! The record store: the ordered list of books and the operations that
//! change it. Every operation works on the whole list, keeps the order in
//! which books were added, and either succeeds or leaves the list as it was.

use vstd::prelude::*;
use vstd::string::StringExecFns;
use crate::book::{Book, BookView, created, with_cover, with_progress, with_status};
use crate::error::LibraryError;
use crate::asset::{is_local_asset, local_asset};
use crate::outside::{random_id, timestamp_now};
use crate::text::{equal_ignoring_case, same_ignoring_case, same_text};

verus! {

/// The values of a list of books, in order.
pub open spec fn views(books: Seq<Book>) -> Seq<BookView> {
    books.map_values(|b: Book| b@)
}

/// Some record carries the identifier `id`.
pub open spec fn has_id(s: Seq<BookView>, id: Seq<char>) -> bool {
    exists|i: int| 0 <= i < s.len() && (#[trigger] s[i]).id == id
}

/// `i` is the place of the first record that carries `id`.
pub open spec fn is_first_with_id(s: Seq<BookView>, id: Seq<char>, i: int) -> bool {
    &&& 0 <= i < s.len()
    &&& s[i].id == id
    &&& forall|j: int| 0 <= j < i ==> (#[trigger] s[j]).id != id
}

/// The place of the first record that carries `id`, where there is one.
pub open spec fn first_with_id(s: Seq<BookView>, id: Seq<char>) -> int {
    choose|i: int| is_first_with_id(s, id, i)
}

/// Some record has this title and this author, ASCII case ignored.
pub open spec fn has_pair(s: Seq<BookView>, title: Seq<char>, author: Seq<char>) -> bool {
    exists|i: int|
        0 <= i < s.len() && same_ignoring_case((#[trigger] s[i]).title, title)
            && same_ignoring_case(s[i].author, author)
}

/// No two records share an identifier.
pub open spec fn ids_unique(s: Seq<BookView>) -> bool {
    forall|i: int, j: int| 0 <= i < j < s.len() ==> (#[trigger] s[i]).id != (#[trigger] s[j]).id
}

/// `drawn` followed by `k` zeros.
pub open spec fn padded(drawn: Seq<char>, k: nat) -> Seq<char> {
    drawn + Seq::new(k, |i: int| '0')
}

/// `id` is the identifier that a new book gets when `drawn` was drawn for
/// it: `drawn` itself where no record carries it, and otherwise `drawn`
/// followed by the fewest zeros that give an identifier no record carries.
pub open spec fn is_unused_form(s: Seq<BookView>, drawn: Seq<char>, id: Seq<char>) -> bool {
    exists|k: nat|
        {
            &&& #[trigger] padded(drawn, k) == id
            &&& !has_id(s, id)
            &&& forall|j: nat| j < k ==> has_id(s, #[trigger] padded(drawn, j))
        }
}

/// The length of the longest identifier in the list.
pub open spec fn longest_id(s: Seq<BookView>) -> nat
    decreases s.len(),
{
    if s.len() == 0 {
        0
    } else if longest_id(s.drop_last()) >= s.last().id.len() {
        longest_id(s.drop_last())
    } else {
        s.last().id.len()
    }
}

/// No identifier in the list is longer than the longest.
pub proof fn lemma_longest_id(s: Seq<BookView>, i: int)
    requires
        0 <= i < s.len(),
    ensures
        s[i].id.len() <= longest_id(s),
    decreases s.len(),
{
    if i < s.len() - 1 {
        lemma_longest_id(s.drop_last(), i);
    }
}

/// Adding a record under an identifier that no record carries keeps the
/// identifiers distinct.
pub proof fn lemma_push_keeps_ids_unique(s: Seq<BookView>, b: BookView)
    requires
        ids_unique(s),
        !has_id(s, b.id),
    ensures
        ids_unique(s.push(b)),
{
    let t = s.push(b);
    assert forall|i: int, j: int| 0 <= i < j < t.len() implies (#[trigger] t[i]).id != (
    #[trigger] t[j]).id by {
        if j == s.len() {
            assert(s[i].id != b.id);
        } else {
            assert(s[i].id != s[j].id);
        }
    }
}

/// At most one place is the first to carry `id`.
pub proof fn lemma_first_with_id_is(s: Seq<BookView>, id: Seq<char>, i: int)
    requires
        is_first_with_id(s, id, i),
    ensures
        first_with_id(s, id) == i,
        has_id(s, id),
{
    let k = first_with_id(s, id);
    assert(is_first_with_id(s, id, k));
    if k < i {
        assert(s[k].id != id);
    }
    if i < k {
        assert(s[i].id != id);
    }
}

/// Loading right after the list was overwritten gives that list back: as
/// many books, in the same order, each with the same field values.
pub proof fn lemma_load_after_replace_all(list: Seq<Book>, store: RecordStore, loaded: Seq<Book>)
    requires
        store@ == views(list),
        views(loaded) == store@,
    ensures
        loaded.len() == list.len(),
        forall|i: int| 0 <= i < list.len() ==> (#[trigger] loaded[i])@ == list[i]@,
{
    assert(views(loaded).len() == loaded.len());
    assert(views(list).len() == list.len());
    assert forall|i: int| 0 <= i < list.len() implies (#[trigger] loaded[i])@ == list[i]@ by {
        assert(views(loaded)[i] == loaded[i]@);
        assert(views(list)[i] == list[i]@);
    }
}

/// The ordered list of books.
pub struct RecordStore {
    records: Vec<Book>,
}

impl View for RecordStore {
    type V = Seq<BookView>;

    closed spec fn view(&self) -> Seq<BookView> {
        views(self.records@)
    }
}

impl RecordStore {
    /// An empty library.
    pub fn new() -> (r: RecordStore)
        ensures
            r@ == Seq::<BookView>::empty(),
    {
        let r = RecordStore { records: Vec::new() };
        assert(r@ =~= Seq::<BookView>::empty());
        r
    }

    /// A library that holds exactly `records`, in their order.
    pub fn from_records(records: Vec<Book>) -> (r: RecordStore)
        ensures
            r@ == views(records@),
    {
        RecordStore { records }
    }

    /// The library read from its document: the list that was read, or an
    /// empty library where the document was missing or could not be read.
    pub fn open(read: Option<Vec<Book>>) -> (r: RecordStore)
        ensures
            r@ == match read {
                Some(records) => views(records@),
                None => Seq::<BookView>::empty(),
            },
    {
        match read {
            Some(records) => RecordStore::from_records(records),
            None => RecordStore::new(),
        }
    }

    /// How many books the library holds.
    pub fn len(&self) -> (n: usize)
        ensures
            n == self@.len(),
    {
        self.records.len()
    }

    /// The whole list, in order.
    pub fn load(&self) -> (r: Vec<Book>)
        ensures
            views(r@) == self@,
    {
        let mut out: Vec<Book> = Vec::new();
        let n: usize = self.records.len();
        let mut i: usize = 0;
        while i < n
            invariant
                n == self.records.len(),
                i <= n,
                out.len() == i,
                forall|j: int| 0 <= j < i ==> out[j] == self.records[j],
            decreases n - i,
        {
            out.push(self.records[i].clone());
            i = i + 1;
        }
        assert(views(out@) =~= self@);
        out
    }

    /// Overwrites the whole list with `records`. Nothing of the previous list
    /// is kept.
    pub fn replace_all(&mut self, records: Vec<Book>)
        ensures
            final(self)@ == views(records@),
    {
        self.records = records;
    }

    /// Empties the library.
    pub fn clear(&mut self)
        ensures
            final(self)@ == Seq::<BookView>::empty(),
    {
        self.records = Vec::new();
        assert(self@ =~= Seq::<BookView>::empty());
    }

    /// Adds `book` at the end. It does not look for duplicates.
    pub fn append(&mut self, book: Book)
        ensures
            final(self)@ == old(self)@.push(book@),
    {
        self.records.push(book);
        assert(self@ =~= old(self)@.push(book@));
    }

    /// The place of the first record that carries `id`.
    pub fn find(&self, id: &str) -> (r: Option<usize>)
        ensures
            match r {
                Some(i) => is_first_with_id(self@, id@, i as int),
                None => !has_id(self@, id@),
            },
    {
        let n: usize = self.records.len();
        let mut i: usize = 0;
        while i < n
            invariant
                n == self.records.len(),
                i <= n,
                forall|j: int| 0 <= j < i ==> (#[trigger] self@[j]).id != id@,
            decreases n - i,
        {
            if same_text(self.records[i].id.as_str(), id) {
                return Some(i);
            }
            i = i + 1;
        }
        None
    }

    /// Whether a record with this title and author is present, ASCII case
    /// ignored.
    pub fn contains_pair(&self, title: &str, author: &str) -> (r: bool)
        ensures
            r == has_pair(self@, title@, author@),
    {
        let n: usize = self.records.len();
        let mut i: usize = 0;
        while i < n
            invariant
                n == self.records.len(),
                i <= n,
                forall|j: int|
                    0 <= j < i ==> !(same_ignoring_case((#[trigger] self@[j]).title, title@)
                        && same_ignoring_case(self@[j].author, author@)),
            decreases n - i,
        {
            if equal_ignoring_case(self.records[i].title.as_str(), title) && equal_ignoring_case(
                self.records[i].author.as_str(),
                author,
            ) {
                assert(same_ignoring_case(self@[i as int].title, title@));
                return true;
            }
            i = i + 1;
        }
        false
    }

    /// The identifier for a new book, given the one drawn for it: the drawn
    /// one where no record carries it, and otherwise the drawn one made
    /// longer, a zero at a time, until no record carries it.
    pub fn unused_id(&self, drawn: String) -> (id: String)
        ensures
            is_unused_form(self@, drawn@, id@),
    {
        let mut id = drawn;
        let ghost mut k: nat = 0;
        assert(id@ =~= padded(drawn@, 0));
        let mut found = self.find(id.as_str());
        while found.is_some()
            invariant
                id@ == padded(drawn@, k),
                forall|j: nat| j < k ==> has_id(self@, #[trigger] padded(drawn@, j)),
                match found {
                    Some(i) => is_first_with_id(self@, id@, i as int),
                    None => !has_id(self@, id@),
                },
            decreases longest_id(self@) + 1 - id@.len(),
        {
            proof {
                lemma_longest_id(self@, found.unwrap() as int);
                assert(has_id(self@, padded(drawn@, k)));
            }
            id.append("0");
            proof {
                reveal_strlit("0");
                assert("0"@ =~= seq!['0']);
                assert(id@ =~= padded(drawn@, k + 1));
                k = k + 1;
            }
            found = self.find(id.as_str());
        }
        id
    }

    /// Creates a book from the given values and adds it at the end, unless
    /// a book with the same title and author, ASCII case ignored, is there.
    ///
    /// The book's identifier is `id` where no record carries it yet, and
    /// otherwise `id` followed by the fewest zeros that make it so: a new
    /// book never shares its identifier with a book of the list.
    pub fn insert_new(
        &mut self,
        id: String,
        date_added: String,
        title: String,
        author: String,
        cover: String,
        status: String,
        pages_read: u32,
        total_pages: u32,
    ) -> (r: Result<Book, LibraryError>)
        ensures
            match r {
                Ok(book) => {
                    &&& !has_pair(old(self)@, title@, author@)
                    &&& is_unused_form(old(self)@, id@, book@.id)
                    &&& book@ == created(
                        book@.id,
                        title@,
                        author@,
                        cover@,
                        status@,
                        total_pages,
                        pages_read,
                        date_added@,
                    )
                    &&& final(self)@ == old(self)@.push(book@)
                },
                Err(e) => {
                    &&& e == LibraryError::Duplicate
                    &&& has_pair(old(self)@, title@, author@)
                    &&& final(self)@ == old(self)@
                },
            },
            ids_unique(old(self)@) ==> ids_unique(final(self)@),
    {
        if self.contains_pair(title.as_str(), author.as_str()) {
            return Err(LibraryError::Duplicate);
        }
        let id = self.unused_id(id);
        let book = Book::new(id, title, author, cover, status, total_pages, pages_read, date_added);
        self.append(book.clone());
        proof {
            if ids_unique(old(self)@) {
                lemma_push_keeps_ids_unique(old(self)@, book@);
            }
        }
        Ok(book)
    }

    /// Adds a book under a fresh random identifier and the current time.
    ///
    /// It fails, and changes nothing, exactly when a book with the same title
    /// and author is present. The identifier starts with 36 random characters
    /// and is carried by no book of the list; the time comes from the clock
    /// and is not constrained here.
    pub fn add_book(
        &mut self,
        title: String,
        author: String,
        cover: String,
        status: String,
        pages_read: u32,
        total_pages: u32,
    ) -> (r: Result<Book, LibraryError>)
        ensures
            match r {
                Ok(book) => {
                    &&& !has_pair(old(self)@, title@, author@)
                    &&& book@ == created(
                        book@.id,
                        title@,
                        author@,
                        cover@,
                        status@,
                        total_pages,
                        pages_read,
                        book@.date_added,
                    )
                    &&& book@.id.len() >= 36
                    &&& !has_id(old(self)@, book@.id)
                    &&& final(self)@ == old(self)@.push(book@)
                },
                Err(e) => {
                    &&& e == LibraryError::Duplicate
                    &&& has_pair(old(self)@, title@, author@)
                    &&& final(self)@ == old(self)@
                },
            },
            ids_unique(old(self)@) ==> ids_unique(final(self)@),
    {
        let id = random_id();
        let date_added = timestamp_now();
        self.insert_new(id, date_added, title, author, cover, status, pages_read, total_pages)
    }

    /// Applies `mutator` to the first book with identifier `id` and puts
    /// what it returns in that book's place. Without such a book the mutator
    /// is not run and nothing changes.
    pub fn update<F: FnOnce(Book) -> Book>(
        &mut self,
        id: &str,
        mutator: F,
    ) -> (r: Result<(), LibraryError>)
        requires
            has_id(old(self)@, id@) ==> forall|b: Book|
                b@ == old(self)@[first_with_id(old(self)@, id@)] ==> call_requires(mutator, (b,)),
        ensures
            match r {
                Ok(_) => {
                    let i = first_with_id(old(self)@, id@);
                    &&& has_id(old(self)@, id@)
                    &&& exists|before: Book, after: Book|
                        {
                            &&& before@ == old(self)@[i]
                            &&& #[trigger] call_ensures(mutator, (before,), after)
                            &&& final(self)@ == old(self)@.update(i, after@)
                        }
                },
                Err(e) => {
                    &&& e == LibraryError::NotFound
                    &&& !has_id(old(self)@, id@)
                    &&& final(self)@ == old(self)@
                },
            },
            ids_unique(old(self)@) && (forall|b: Book, a: Book| #[trigger]
                call_ensures(mutator, (b,), a) ==> a@.id == b@.id) ==> ids_unique(final(self)@),
    {
        match self.find(id) {
            Some(i) => {
                proof {
                    lemma_first_with_id_is(self@, id@, i as int);
                }
                let before = self.records[i].clone();
                let after = mutator(before);
                let ghost changed = after@;
                self.records[i] = after;
                assert(self@ =~= old(self)@.update(i as int, changed));
                Ok(())
            },
            None => Err(LibraryError::NotFound),
        }
    }

    /// Sets the status of the book with identifier `id`.
    pub fn update_status(&mut self, id: &str, status: String) -> (r: Result<(), LibraryError>)
        ensures
            match r {
                Ok(_) => {
                    let i = first_with_id(old(self)@, id@);
                    &&& has_id(old(self)@, id@)
                    &&& final(self)@ == old(self)@.update(i, with_status(old(self)@[i], status@))
                },
                Err(e) => {
                    &&& e == LibraryError::NotFound
                    &&& !has_id(old(self)@, id@)
                    &&& final(self)@ == old(self)@
                },
            },
            ids_unique(old(self)@) ==> ids_unique(final(self)@),
    {
        match self.find(id) {
            Some(i) => {
                proof {
                    lemma_first_with_id_is(self@, id@, i as int);
                }
                self.records[i].set_status(status);
                assert(self@ =~= old(self)@.update(
                    i as int,
                    with_status(old(self)@[i as int], status@),
                ));
                Ok(())
            },
            None => Err(LibraryError::NotFound),
        }
    }

    /// Reports reading progress for the book with identifier `id`.
    pub fn update_progress(&mut self, id: &str, pages_read: u32) -> (r: Result<(), LibraryError>)
        ensures
            match r {
                Ok(_) => {
                    let i = first_with_id(old(self)@, id@);
                    &&& has_id(old(self)@, id@)
                    &&& final(self)@ == old(self)@.update(
                        i,
                        with_progress(old(self)@[i], pages_read),
                    )
                },
                Err(e) => {
                    &&& e == LibraryError::NotFound
                    &&& !has_id(old(self)@, id@)
                    &&& final(self)@ == old(self)@
                },
            },
            ids_unique(old(self)@) ==> ids_unique(final(self)@),
    {
        match self.find(id) {
            Some(i) => {
                proof {
                    lemma_first_with_id_is(self@, id@, i as int);
                }
                self.records[i].record_progress(pages_read);
                assert(self@ =~= old(self)@.update(
                    i as int,
                    with_progress(old(self)@[i as int], pages_read),
                ));
                Ok(())
            },
            None => Err(LibraryError::NotFound),
        }
    }

    /// Sets the cover of the book with identifier `id`.
    pub fn update_cover(&mut self, id: &str, cover: String) -> (r: Result<(), LibraryError>)
        ensures
            match r {
                Ok(_) => {
                    let i = first_with_id(old(self)@, id@);
                    &&& has_id(old(self)@, id@)
                    &&& final(self)@ == old(self)@.update(i, with_cover(old(self)@[i], cover@))
                },
                Err(e) => {
                    &&& e == LibraryError::NotFound
                    &&& !has_id(old(self)@, id@)
                    &&& final(self)@ == old(self)@
                },
            },
            ids_unique(old(self)@) ==> ids_unique(final(self)@),
    {
        match self.find(id) {
            Some(i) => {
                proof {
                    lemma_first_with_id_is(self@, id@, i as int);
                }
                self.records[i].set_cover(cover);
                assert(self@ =~= old(self)@.update(
                    i as int,
                    with_cover(old(self)@[i as int], cover@),
                ));
                Ok(())
            },
            None => Err(LibraryError::NotFound),
        }
    }

    /// Removes the first book with identifier `id`; the others keep their
    /// order.
    ///
    /// On success it hands back the asset that the removed book owned, for
    /// the caller to delete: the book's cover where that names a local asset,
    /// and nothing where the cover is empty or a remote address.
    pub fn remove(&mut self, id: &str) -> (r: Result<Option<String>, LibraryError>)
        ensures
            match r {
                Ok(asset) => {
                    let i = first_with_id(old(self)@, id@);
                    &&& has_id(old(self)@, id@)
                    &&& final(self)@ == old(self)@.remove(i)
                    &&& match asset {
                        Some(path) => {
                            &&& is_local_asset(old(self)@[i].cover)
                            &&& path@ == old(self)@[i].cover
                        },
                        None => !is_local_asset(old(self)@[i].cover),
                    }
                },
                Err(e) => {
                    &&& e == LibraryError::NotFound
                    &&& !has_id(old(self)@, id@)
                    &&& final(self)@ == old(self)@
                },
            },
            ids_unique(old(self)@) ==> ids_unique(final(self)@),
    {
        match self.find(id) {
            Some(i) => {
                proof {
                    lemma_first_with_id_is(self@, id@, i as int);
                }
                let book = self.records.remove(i);
                assert(self@ =~= old(self)@.remove(i as int));
                if local_asset(book.cover.as_str()) {
                    Ok(Some(book.cover))
                } else {
                    Ok(None)
                }
            },
            None => Err(LibraryError::NotFound),
        }
    }
}

} // verus!
