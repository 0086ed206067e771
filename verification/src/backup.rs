//! The backup document: every book of the library together with the bytes
//! of its cover image, as base64 text, where the book owns a readable local
//! asset. A document is read back in one of two shapes: entries that may
//! carry an image, or a bare list of books.

use vstd::prelude::*;
use crate::asset::{is_local_asset, local_asset};
use crate::book::{Book, BookView, with_cover};
use crate::error::LibraryError;
use crate::outside::{base64_bytes, base64_decode, base64_encode, base64_text};
use crate::store::views;

verus! {

/// One entry of a backup document: a book and, where it could be embedded,
/// its cover image as base64 text.
#[derive(Debug)]
pub struct BackupItem {
    pub book: Book,
    pub cover_base64: Option<String>,
}

/// The mathematical value of a `BackupItem`.
pub ghost struct BackupItemView {
    pub book: BookView,
    pub payload: Option<Seq<char>>,
}

impl View for BackupItem {
    type V = BackupItemView;

    open spec fn view(&self) -> BackupItemView {
        BackupItemView { book: self.book@, payload: text_of(self.cover_base64) }
    }
}

/// A backup document after its shape is known.
#[derive(Debug)]
pub enum BackupDocument {
    /// Entries that may each carry an embedded image.
    Rich(Vec<BackupItem>),
    /// A bare list of books, with no images.
    Legacy(Vec<Book>),
}

/// A book read from a backup, with the image bytes that still have to be
/// handed to the asset store, if its entry carried any that decode.
#[derive(Debug)]
pub struct PendingRestore {
    pub book: Book,
    pub bytes: Option<Vec<u8>>,
}

/// The mathematical value of a `PendingRestore`.
pub ghost struct PendingView {
    pub book: BookView,
    pub bytes: Option<Seq<u8>>,
}

impl View for PendingRestore {
    type V = PendingView;

    open spec fn view(&self) -> PendingView {
        PendingView { book: self.book@, bytes: bytes_of(self.bytes) }
    }
}

/// The characters of an optional text.
pub open spec fn text_of(o: Option<String>) -> Option<Seq<char>> {
    match o {
        Some(s) => Some(s@),
        None => None,
    }
}

/// The bytes of an optional byte string.
pub open spec fn bytes_of(o: Option<Vec<u8>>) -> Option<Seq<u8>> {
    match o {
        Some(v) => Some(v@),
        None => None,
    }
}

/// The entry written for a book, given what reading its asset produced.
/// The image is embedded exactly when the cover names a local asset and its
/// bytes could be read.
pub open spec fn entry_for(book: BookView, asset: Option<Seq<u8>>) -> BackupItemView {
    BackupItemView {
        book: book,
        payload: match asset {
            Some(bytes) if is_local_asset(book.cover) => Some(base64_text(bytes)),
            _ => None,
        },
    }
}

/// The bytes that an entry's payload stands for: none where there is no
/// payload or it is not base64.
pub open spec fn payload_bytes(item: BackupItemView) -> Option<Seq<u8>> {
    match item.payload {
        Some(text) => base64_bytes(text),
        None => None,
    }
}

/// What remains to be done for an entry read from a rich document.
pub open spec fn planned_entry(item: BackupItemView) -> PendingView {
    PendingView { book: item.book, bytes: payload_bytes(item) }
}

/// What remains to be done for each book of a document. A legacy document
/// carries no images, so nothing is pending for its books.
pub open spec fn planned(doc: BackupDocument) -> Seq<PendingView> {
    match doc {
        BackupDocument::Rich(items) => Seq::new(
            items.len() as nat,
            |i: int| planned_entry(items[i]@),
        ),
        BackupDocument::Legacy(books) => Seq::new(
            books.len() as nat,
            |i: int| PendingView { book: books[i]@, bytes: None },
        ),
    }
}

/// The book as restored: its cover points at the newly stored asset where
/// there were bytes to store and the asset store returned a reference;
/// otherwise the book is exactly as the document had it.
pub open spec fn finished(p: PendingView, stored: Option<Seq<char>>) -> BookView {
    match stored {
        Some(reference) if p.bytes.is_some() => with_cover(p.book, reference),
        _ => p.book,
    }
}

/// The reference that the asset store returned for entry `i`; none where
/// the list is too short to say.
pub open spec fn stored_at(stored: Seq<Option<String>>, i: int) -> Option<Seq<char>> {
    if 0 <= i < stored.len() {
        text_of(stored[i])
    } else {
        None
    }
}

/// The books of a restored library, in the document's order.
pub open spec fn finished_all(
    pending: Seq<PendingView>,
    stored: Seq<Option<String>>,
) -> Seq<BookView> {
    Seq::new(pending.len(), |i: int| finished(pending[i], stored_at(stored, i)))
}

/// The values of a list of pending books, in order.
pub open spec fn pending_views(pending: Seq<PendingRestore>) -> Seq<PendingView> {
    pending.map_values(|p: PendingRestore| p@)
}

/// The backup entries for a list of books, each with what reading its asset
/// produced.
pub open spec fn entries_for(entries: Seq<(Book, Option<Vec<u8>>)>) -> Seq<BackupItemView> {
    Seq::new(entries.len(), |i: int| entry_for(entries[i].0@, bytes_of(entries[i].1)))
}

/// The values of a list of backup entries, in order.
pub open spec fn item_views(items: Seq<BackupItem>) -> Seq<BackupItemView> {
    items.map_values(|e: BackupItem| e@)
}

impl BackupItem {
    /// An entry that holds `book` and `cover_base64` as given.
    pub fn new(book: Book, cover_base64: Option<String>) -> (r: BackupItem)
        ensures
            r@ == (BackupItemView { book: book@, payload: text_of(cover_base64) }),
    {
        BackupItem { book, cover_base64 }
    }
}

/// The backup entry for `book`, where `asset` holds the bytes of its cover
/// image if they could be read.
pub fn backup_entry(book: &Book, asset: &Option<Vec<u8>>) -> (r: BackupItem)
    ensures
        r@ == entry_for(book@, bytes_of(*asset)),
{
    let payload = match asset {
        Some(bytes) => {
            if local_asset(book.cover.as_str()) {
                Some(base64_encode(bytes))
            } else {
                None
            }
        },
        None => None,
    };
    BackupItem::new(book.clone(), payload)
}

/// The entries of a backup document for the whole library, in order.
pub fn build_backup(entries: &Vec<(Book, Option<Vec<u8>>)>) -> (r: Vec<BackupItem>)
    ensures
        item_views(r@) == entries_for(entries@),
{
    let mut out: Vec<BackupItem> = Vec::new();
    let n: usize = entries.len();
    let mut i: usize = 0;
    while i < n
        invariant
            n == entries.len(),
            i <= n,
            out.len() == i,
            forall|j: int|
                0 <= j < i ==> (#[trigger] out[j])@ == entry_for(
                    entries[j].0@,
                    bytes_of(entries[j].1),
                ),
        decreases n - i,
    {
        let item = backup_entry(&entries[i].0, &entries[i].1);
        out.push(item);
        i = i + 1;
    }
    assert(item_views(out@) =~= entries_for(entries@));
    out
}

/// Settles the shape of a backup document from the outcome of reading it
/// in each shape. The rich shape wins wherever it could be read; the legacy
/// shape counts only where the rich one could not; where neither could, the
/// document is invalid.
pub fn select_document(
    rich: Option<Vec<BackupItem>>,
    legacy: Option<Vec<Book>>,
) -> (r: Result<BackupDocument, LibraryError>)
    ensures
        r == match (rich, legacy) {
            (Some(items), _) => Ok::<BackupDocument, LibraryError>(BackupDocument::Rich(items)),
            (None, Some(books)) => Ok(BackupDocument::Legacy(books)),
            (None, None) => Err(LibraryError::InvalidBackup),
        },
{
    match rich {
        Some(items) => Ok(BackupDocument::Rich(items)),
        None => match legacy {
            Some(books) => Ok(BackupDocument::Legacy(books)),
            None => Err(LibraryError::InvalidBackup),
        },
    }
}

impl PendingRestore {
    /// A pending book with the bytes that are still to be stored for it.
    pub fn new(book: Book, bytes: Option<Vec<u8>>) -> (r: PendingRestore)
        ensures
            r@ == (PendingView { book: book@, bytes: bytes_of(bytes) }),
    {
        PendingRestore { book, bytes }
    }

    /// The restored book, where `stored` is the reference under which the
    /// asset store saved this book's bytes, or nothing if it saved none.
    pub fn finish(&self, stored: &Option<String>) -> (r: Book)
        ensures
            r@ == finished(self@, text_of(*stored)),
    {
        let mut book = self.book.clone();
        match stored {
            Some(reference) => {
                if self.bytes.is_some() {
                    book.set_cover(reference.clone());
                }
            },
            None => {},
        }
        book
    }
}

/// Reads one entry of a rich document: the book, and the image bytes where
/// the entry carries a payload that decodes.
pub fn plan_entry(item: &BackupItem) -> (r: PendingRestore)
    ensures
        r@ == planned_entry(item@),
{
    let bytes = match &item.cover_base64 {
        Some(text) => base64_decode(text.as_str()),
        None => None,
    };
    PendingRestore::new(item.book.clone(), bytes)
}

/// Reads a whole document: one pending book per entry, in order.
pub fn plan_restore(doc: &BackupDocument) -> (r: Vec<PendingRestore>)
    ensures
        pending_views(r@) == planned(*doc),
{
    let mut out: Vec<PendingRestore> = Vec::new();
    match doc {
        BackupDocument::Rich(items) => {
            let n: usize = items.len();
            let mut i: usize = 0;
            while i < n
                invariant
                    n == items.len(),
                    i <= n,
                    out.len() == i,
                    forall|j: int| 0 <= j < i ==> (#[trigger] out[j])@ == planned_entry(items[j]@),
                decreases n - i,
            {
                out.push(plan_entry(&items[i]));
                i = i + 1;
            }
        },
        BackupDocument::Legacy(books) => {
            let n: usize = books.len();
            let mut i: usize = 0;
            while i < n
                invariant
                    n == books.len(),
                    i <= n,
                    out.len() == i,
                    forall|j: int|
                        0 <= j < i ==> (#[trigger] out[j])@ == (PendingView {
                            book: books[j]@,
                            bytes: None,
                        }),
                decreases n - i,
            {
                out.push(PendingRestore::new(books[i].clone(), None));
                i = i + 1;
            }
        },
    }
    assert(pending_views(out@) =~= planned(*doc));
    out
}

/// The restored library: each pending book finished with the reference
/// that the asset store returned for it. The result is meant to replace the
/// whole record list.
pub fn finish_restore(pending: &Vec<PendingRestore>, stored: &Vec<Option<String>>) -> (r: Vec<Book>)
    ensures
        views(r@) == finished_all(pending_views(pending@), stored@),
{
    let mut out: Vec<Book> = Vec::new();
    let n: usize = pending.len();
    let mut i: usize = 0;
    while i < n
        invariant
            n == pending.len(),
            i <= n,
            out.len() == i,
            forall|j: int|
                0 <= j < i ==> (#[trigger] out[j])@ == finished(pending[j]@, stored_at(stored@, j)),
        decreases n - i,
    {
        let book = if i < stored.len() {
            pending[i].finish(&stored[i])
        } else {
            pending[i].finish(&None)
        };
        out.push(book);
        i = i + 1;
    }
    assert(views(out@) =~= finished_all(pending_views(pending@), stored@));
    out
}

/// Restoring a legacy document reproduces its books exactly, covers
/// included, whatever the asset store reports.
pub proof fn lemma_legacy_restore_is_exact(books: Vec<Book>, stored: Seq<Option<String>>)
    ensures
        finished_all(planned(BackupDocument::Legacy(books)), stored) == views(books@),
{
    assert(finished_all(planned(BackupDocument::Legacy(books)), stored) =~= views(books@));
}

/// A book whose cover is empty or a remote address goes through backup and
/// restore unchanged: its entry embeds no image, whatever was read for it,
/// and restoring the entry gives the book back as it was.
pub proof fn lemma_unowned_cover_round_trip(
    book: BookView,
    asset: Option<Seq<u8>>,
    stored: Option<Seq<char>>,
)
    requires
        !is_local_asset(book.cover),
    ensures
        entry_for(book, asset).payload.is_none(),
        finished(planned_entry(entry_for(book, asset)), stored) == book,
{
}

} // verus!
