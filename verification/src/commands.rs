//! The operations as the application issues them. Each takes the work
//! that lies outside the library (fetching an image, reading or saving an
//! asset) as a function, runs it where the rules call for it, and says how
//! the library changes for whatever that function answers.

use vstd::prelude::*;
use crate::asset::{
    cover_after_fetch, default_extension, file_name, fresh_asset_name, fresh_download_name,
    inferred_extension, is_local_asset, local_asset,
};
use crate::backup::{
    build_backup, entries_for, finish_restore, finished_all, item_views, pending_views,
    plan_restore, planned, select_document, BackupDocument, BackupItem, PendingRestore,
};
use crate::book::{created, Book};
use crate::error::LibraryError;
use crate::store::{has_id, has_pair, ids_unique, views, RecordStore};
use crate::text::is_blank;

verus! {

/// `cover` is the cover that a new book gets for the address `url`.
///
/// For a blank address nothing is fetched and the cover is the address.
/// Otherwise `fetch` is asked once, with the address and a file name made of
/// a 36-character identifier and the extension read off the address; the
/// cover is the reference it answers with, or the address where it fails.
pub open spec fn cover_resolved<F: FnOnce(&String, &String) -> Option<String>>(
    fetch: F,
    url: String,
    cover: Seq<char>,
) -> bool {
    if is_blank(url@) {
        cover == url@
    } else {
        exists|name: String, answer: Option<String>|
            {
                &&& name@.len() >= 36
                &&& name@ == file_name(name@.subrange(0, 36), inferred_extension(url@))
                &&& #[trigger] call_ensures(fetch, (&url, &name), answer)
                &&& cover == match answer {
                    Some(reference) => reference@,
                    None => url@,
                }
            }
    }
}

/// Adds a book whose cover image is to be fetched from the address `cover`.
///
/// A book with the same title and author, ASCII case ignored, is refused
/// before anything is fetched, and the library stays as it was. Otherwise
/// the image is fetched once, the book is created with the resulting cover
/// under a fresh identifier and the current time, and added at the end. A
/// failed fetch does not fail the operation.
pub fn add_book<F: FnOnce(&String, &String) -> Option<String>>(
    store: &mut RecordStore,
    title: String,
    author: String,
    cover: String,
    status: String,
    pages_read: u32,
    total_pages: u32,
    fetch: F,
) -> (r: Result<Book, LibraryError>)
    requires
        forall|url: &String, name: &String| call_requires(fetch, (url, name)),
    ensures
        match r {
            Ok(book) => {
                &&& !has_pair(old(store)@, title@, author@)
                &&& cover_resolved(fetch, cover, book@.cover)
                &&& book@ == created(
                    book@.id,
                    title@,
                    author@,
                    book@.cover,
                    status@,
                    total_pages,
                    pages_read,
                    book@.date_added,
                )
                &&& book@.id.len() >= 36
                &&& !has_id(old(store)@, book@.id)
                &&& final(store)@ == old(store)@.push(book@)
            },
            Err(e) => {
                &&& e == LibraryError::Duplicate
                &&& has_pair(old(store)@, title@, author@)
                &&& final(store)@ == old(store)@
            },
        },
        ids_unique(old(store)@) ==> ids_unique(final(store)@),
{
    if store.contains_pair(title.as_str(), author.as_str()) {
        return Err(LibraryError::Duplicate);
    }
    let fetched = match fresh_download_name(cover.as_str()) {
        Ok(name) => fetch(&cover, &name),
        Err(_) => None,
    };
    let ghost url = cover;
    let resolved = cover_after_fetch(cover, fetched);
    assert(cover_resolved(fetch, url, resolved@));
    store.add_book(title, author, resolved, status, pages_read, total_pages)
}

/// `assets` holds what reading each book's asset produced: for a book whose
/// cover names a local asset, an answer of `read_asset` to that cover.
pub open spec fn assets_read<F: Fn(&String) -> Option<Vec<u8>>>(
    read_asset: F,
    entries: Seq<(Book, Option<Vec<u8>>)>,
) -> bool {
    forall|i: int|
        0 <= i < entries.len() && is_local_asset((#[trigger] entries[i]).0@.cover) ==> call_ensures(
            read_asset,
            (&entries[i].0.cover,),
            entries[i].1,
        )
}

/// The books of a list of entries, in order.
pub open spec fn books_of(entries: Seq<(Book, Option<Vec<u8>>)>) -> Seq<Book> {
    entries.map_values(|e: (Book, Option<Vec<u8>>)| e.0)
}

/// The entries of a backup document for the whole library.
///
/// There is one entry per book, in the library's order. The asset of a book
/// is read only where its cover names a local asset, and its bytes are
/// embedded where reading succeeds.
pub fn backup_library<F: Fn(&String) -> Option<Vec<u8>>>(
    store: &RecordStore,
    read_asset: F,
) -> (r: Vec<BackupItem>)
    requires
        forall|path: &String| call_requires(read_asset, (path,)),
    ensures
        exists|entries: Seq<(Book, Option<Vec<u8>>)>|
            {
                &&& views(books_of(entries)) == store@
                &&& #[trigger] assets_read(read_asset, entries)
                &&& item_views(r@) == entries_for(entries)
            },
{
    let books = store.load();
    let mut entries: Vec<(Book, Option<Vec<u8>>)> = Vec::new();
    let n: usize = books.len();
    let mut i: usize = 0;
    while i < n
        invariant
            n == books.len(),
            i <= n,
            entries.len() == i,
            forall|path: &String| call_requires(read_asset, (path,)),
            forall|j: int| 0 <= j < i ==> (#[trigger] entries[j]).0 == books[j],
            assets_read(read_asset, entries@),
        decreases n - i,
    {
        let book = books[i].clone();
        let asset = if local_asset(book.cover.as_str()) {
            read_asset(&book.cover)
        } else {
            None
        };
        entries.push((book, asset));
        i = i + 1;
    }
    assert(views(books_of(entries@)) =~= views(books@));
    build_backup(&entries)
}

/// `answer` is what the asset store gave for `bytes`, asked to save them
/// under a file name made of a 36-character identifier and the default
/// extension.
pub open spec fn saved_as<F: Fn(&Vec<u8>, &String) -> Option<String>>(
    store_bytes: F,
    bytes: Vec<u8>,
    answer: Option<String>,
) -> bool {
    exists|name: String|
        {
            &&& name@.len() >= 36
            &&& name@ == file_name(name@.subrange(0, 36), default_extension())
            &&& #[trigger] call_ensures(store_bytes, (&bytes, &name), answer)
        }
}

/// `stored` holds what the asset store answered for each pending book:
/// nothing where no bytes were pending, and otherwise an answer that
/// `store_bytes` gives for those bytes.
pub open spec fn answered<F: Fn(&Vec<u8>, &String) -> Option<String>>(
    store_bytes: F,
    pending: Seq<PendingRestore>,
    stored: Seq<Option<String>>,
) -> bool {
    &&& stored.len() == pending.len()
    &&& forall|i: int|
        0 <= i < pending.len() ==> match pending[i].bytes {
            Some(bytes) => saved_as(store_bytes, bytes, #[trigger] stored[i]),
            None => stored[i].is_none(),
        }
}

/// Restores the library from a backup document, given the outcome of
/// reading the document in each shape and the asset store's operation that
/// saves an image under a file name and returns its new reference, or
/// nothing on failure.
///
/// A document of neither shape is refused and the library stays as it was.
/// Otherwise the image of every entry whose payload decodes is handed to the
/// asset store with a fresh file name, each book is finished with the
/// answer, and the result replaces the whole library.
pub fn restore_library<F: Fn(&Vec<u8>, &String) -> Option<String>>(
    store: &mut RecordStore,
    rich: Option<Vec<BackupItem>>,
    legacy: Option<Vec<Book>>,
    store_bytes: F,
) -> (r: Result<(), LibraryError>)
    requires
        forall|bytes: &Vec<u8>, name: &String| call_requires(store_bytes, (bytes, name)),
    ensures
        match r {
            Ok(_) => {
                let doc = match rich {
                    Some(items) => BackupDocument::Rich(items),
                    None => BackupDocument::Legacy(legacy.unwrap()),
                };
                &&& rich.is_some() || legacy.is_some()
                &&& exists|pending: Seq<PendingRestore>, stored: Seq<Option<String>>|
                    {
                        &&& pending_views(pending) == planned(doc)
                        &&& #[trigger] answered(store_bytes, pending, stored)
                        &&& final(store)@ == finished_all(pending_views(pending), stored)
                    }
            },
            Err(e) => {
                &&& e == LibraryError::InvalidBackup
                &&& rich.is_none() && legacy.is_none()
                &&& final(store)@ == old(store)@
            },
        },
{
    let doc = match select_document(rich, legacy) {
        Ok(doc) => doc,
        Err(e) => {
            return Err(e);
        },
    };
    let pending = plan_restore(&doc);
    let mut stored: Vec<Option<String>> = Vec::new();
    let n: usize = pending.len();
    let mut i: usize = 0;
    while i < n
        invariant
            n == pending.len(),
            i <= n,
            stored.len() == i,
            forall|bytes: &Vec<u8>, name: &String| call_requires(store_bytes, (bytes, name)),
            forall|j: int|
                0 <= j < i ==> match pending[j].bytes {
                    Some(bytes) => saved_as(store_bytes, bytes, #[trigger] stored[j]),
                    None => stored[j].is_none(),
                },
        decreases n - i,
    {
        let answer = match &pending[i].bytes {
            Some(bytes) => {
                let name = fresh_asset_name();
                let answer = store_bytes(bytes, &name);
                assert(saved_as(store_bytes, *bytes, answer));
                answer
            },
            None => None,
        };
        stored.push(answer);
        i = i + 1;
    }
    assert(answered(store_bytes, pending@, stored@));
    let books = finish_restore(&pending, &stored);
    store.replace_all(books);
    Ok(())
}

} // verus!
