//! One tracked book, and the rule by which reading progress moves its status.

use vstd::prelude::*;
use crate::text::same_text;

verus! {

/// A tracked book as it is stored.
#[derive(Debug)]
pub struct Book {
    /// Opaque unique identifier, given at creation and never changed.
    pub id: String,
    pub title: String,
    pub author: String,
    /// A local asset reference, or a remote address.
    pub cover: String,
    /// Display accent, fixed at creation.
    pub cover_color: String,
    /// The reading state: at least "to-read", "reading" and "finished".
    pub status: String,
    pub total_pages: u32,
    pub pages_read: u32,
    /// When the book was added, as text.
    pub date_added: String,
}

/// The mathematical value of a `Book`: its texts as character sequences.
pub ghost struct BookView {
    pub id: Seq<char>,
    pub title: Seq<char>,
    pub author: Seq<char>,
    pub cover: Seq<char>,
    pub cover_color: Seq<char>,
    pub status: Seq<char>,
    pub total_pages: u32,
    pub pages_read: u32,
    pub date_added: Seq<char>,
}

impl View for Book {
    type V = BookView;

    open spec fn view(&self) -> BookView {
        BookView {
            id: self.id@,
            title: self.title@,
            author: self.author@,
            cover: self.cover@,
            cover_color: self.cover_color@,
            status: self.status@,
            total_pages: self.total_pages,
            pages_read: self.pages_read,
            date_added: self.date_added@,
        }
    }
}

/// The accent colour that every new book starts with.
pub open spec fn default_cover_color() -> Seq<char> {
    "#FF9A9E"@
}

/// A book as it stands right after creation.
pub open spec fn created(
    id: Seq<char>,
    title: Seq<char>,
    author: Seq<char>,
    cover: Seq<char>,
    status: Seq<char>,
    total_pages: u32,
    pages_read: u32,
    date_added: Seq<char>,
) -> BookView {
    BookView {
        id,
        title,
        author,
        cover,
        cover_color: default_cover_color(),
        status,
        total_pages,
        pages_read,
        date_added,
    }
}

/// The book after `pages_read` pages are reported.
///
/// With a known page count, reaching it finishes the book and the pages read
/// are held at the total. Otherwise the first page read moves a book that was
/// waiting to be read to being read. In every other case only the page
/// counter changes.
pub open spec fn with_progress(b: BookView, pages_read: u32) -> BookView {
    if b.total_pages > 0 && pages_read >= b.total_pages {
        BookView { pages_read: b.total_pages, status: "finished"@, ..b }
    } else if pages_read > 0 && b.status == "to-read"@ {
        BookView { pages_read: pages_read, status: "reading"@, ..b }
    } else {
        BookView { pages_read: pages_read, ..b }
    }
}

/// The book with another status.
pub open spec fn with_status(b: BookView, status: Seq<char>) -> BookView {
    BookView { status: status, ..b }
}

/// The book with another cover.
pub open spec fn with_cover(b: BookView, cover: Seq<char>) -> BookView {
    BookView { cover: cover, ..b }
}

/// Reporting progress never leaves more pages read than a known total, and
/// changes nothing but the pages read and the status.
pub proof fn lemma_progress_within_total(b: BookView, pages_read: u32)
    ensures
        b.total_pages > 0 ==> with_progress(b, pages_read).pages_read <= b.total_pages,
        b.total_pages > 0 && pages_read >= b.total_pages ==> with_progress(b, pages_read).pages_read
            == b.total_pages,
        !(b.total_pages > 0 && pages_read >= b.total_pages) ==> with_progress(
            b,
            pages_read,
        ).pages_read == pages_read,
        with_progress(b, pages_read) == (BookView {
            pages_read: with_progress(b, pages_read).pages_read,
            status: with_progress(b, pages_read).status,
            ..b
        }),
{
}

impl Clone for Book {
    fn clone(&self) -> (r: Self)
        ensures
            r == *self,
    {
        Book {
            id: self.id.clone(),
            title: self.title.clone(),
            author: self.author.clone(),
            cover: self.cover.clone(),
            cover_color: self.cover_color.clone(),
            status: self.status.clone(),
            total_pages: self.total_pages,
            pages_read: self.pages_read,
            date_added: self.date_added.clone(),
        }
    }
}

impl Book {
    /// A new book with the default accent colour.
    pub fn new(
        id: String,
        title: String,
        author: String,
        cover: String,
        status: String,
        total_pages: u32,
        pages_read: u32,
        date_added: String,
    ) -> (r: Book)
        ensures
            r@ == created(
                id@,
                title@,
                author@,
                cover@,
                status@,
                total_pages,
                pages_read,
                date_added@,
            ),
    {
        Book {
            id,
            title,
            author,
            cover,
            cover_color: "#FF9A9E".to_owned(),
            status,
            total_pages,
            pages_read,
            date_added,
        }
    }

    /// Records that `pages_read` pages have been read.
    pub fn record_progress(&mut self, pages_read: u32)
        ensures
            final(self)@ == with_progress(old(self)@, pages_read),
            final(self).total_pages > 0 ==> final(self).pages_read <= final(self).total_pages,
    {
        if self.total_pages > 0 && pages_read >= self.total_pages {
            self.status = "finished".to_owned();
            self.pages_read = self.total_pages;
        } else if pages_read > 0 && same_text(self.status.as_str(), "to-read") {
            self.status = "reading".to_owned();
            self.pages_read = pages_read;
        } else {
            self.pages_read = pages_read;
        }
    }

    /// Replaces the reading state.
    pub fn set_status(&mut self, status: String)
        ensures
            final(self)@ == with_status(old(self)@, status@),
    {
        self.status = status;
    }

    /// Replaces the cover reference.
    pub fn set_cover(&mut self, cover: String)
        ensures
            final(self)@ == with_cover(old(self)@, cover@),
    {
        self.cover = cover;
    }
}

} // verus!
