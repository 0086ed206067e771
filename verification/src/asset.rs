//! The asset store's rules: which cover references name a stored image,
//! and how the file of a new image is named. The images themselves are
//! written and deleted by the caller.

use vstd::prelude::*;
use vstd::string::StringExecFns;
use crate::error::LibraryError;
use crate::outside::random_id;
use crate::text::{blank, has_prefix, is_blank, starts_with};

verus! {

/// A cover that names a remote address rather than a stored asset.
pub open spec fn is_remote(cover: Seq<char>) -> bool {
    has_prefix(cover, "http"@)
}

/// A cover that names an asset of the local store: not empty and not a
/// remote address.
pub open spec fn is_local_asset(cover: Seq<char>) -> bool {
    cover.len() > 0 && !is_remote(cover)
}

/// The place right after the last `c` in `s`; 0 where `s` holds no `c`.
pub open spec fn after_last(s: Seq<char>, c: char) -> int
    decreases s.len(),
{
    if s.len() == 0 {
        0
    } else if s.last() == c {
        s.len() as int
    } else {
        after_last(s.drop_last(), c)
    }
}

/// The last path component of an address: what follows its last `/`, and
/// the whole address where it holds none.
pub open spec fn last_component(url: Seq<char>) -> Seq<char> {
    url.subrange(after_last(url, '/'), url.len() as int)
}

/// The extension given to images whose address suggests none.
pub open spec fn default_extension() -> Seq<char> {
    "jpg"@
}

/// The extension read off an address.
///
/// It is what follows the last `.` of the address's last path component,
/// where that is not empty and takes at most four bytes in UTF-8. Where the
/// component holds no `.`, or what follows its last `.` is empty or longer,
/// it is the default.
pub open spec fn inferred_extension(url: Seq<char>) -> Seq<char> {
    let component = last_component(url);
    let dot = after_last(component, '.');
    let tail = component.subrange(dot, component.len() as int);
    if dot > 0 && 0 < tail.len() && vstd::utf8::encode_utf8(tail).len() <= 4 {
        tail
    } else {
        default_extension()
    }
}

/// The file name of an asset: identifier, a dot, extension.
pub open spec fn file_name(id: Seq<char>, ext: Seq<char>) -> Seq<char> {
    id + seq!['.'] + ext
}

/// Nothing from `after_last(s, c)` on is `c`.
pub proof fn lemma_after_last(s: Seq<char>, c: char)
    ensures
        0 <= after_last(s, c) <= s.len(),
        after_last(s, c) > 0 ==> s[after_last(s, c) - 1] == c,
        forall|j: int| after_last(s, c) <= j < s.len() ==> s[j] != c,
    decreases s.len(),
{
    if s.len() > 0 && s.last() != c {
        let head = s.drop_last();
        lemma_after_last(head, c);
        assert forall|j: int| after_last(s, c) <= j < s.len() implies s[j] != c by {
            if j < head.len() {
                assert(head[j] == s[j]);
            }
        }
    }
}

/// An inferred extension is never empty and holds neither `/` nor `.`, so a
/// file name made with it names a file directly in the covers directory and
/// has the identifier as all that stands before its last dot.
pub proof fn lemma_extension_is_plain(url: Seq<char>)
    ensures
        inferred_extension(url).len() > 0,
        forall|i: int|
            0 <= i < inferred_extension(url).len() ==> inferred_extension(url)[i] != '/'
                && inferred_extension(url)[i] != '.',
{
    reveal_strlit("jpg");
    let component = last_component(url);
    let dot = after_last(component, '.');
    let tail = component.subrange(dot, component.len() as int);
    lemma_after_last(url, '/');
    lemma_after_last(component, '.');
    assert forall|i: int| 0 <= i < tail.len() implies tail[i] != '/' && tail[i] != '.' by {
        assert(tail[i] == component[dot + i]);
        assert(component[dot + i] == url[after_last(url, '/') + dot + i]);
    }
}

/// Whether `cover` names an asset of the local store.
pub fn local_asset(cover: &str) -> (r: bool)
    ensures
        r == is_local_asset(cover@),
{
    !cover.is_empty() && !starts_with(cover, "http")
}

/// The place right after the last `c` in `s`, counted in characters; 0
/// where `s` holds no `c`.
pub fn index_after_last(s: &str, c: char) -> (r: usize)
    ensures
        r == after_last(s@, c),
        r <= s@.len(),
{
    let n: usize = s.unicode_len();
    let mut k: usize = n;
    assert(s@.subrange(0, n as int) =~= s@);
    while k > 0 && s.get_char(k - 1) != c
        invariant
            n == s@.len(),
            k <= n,
            after_last(s@, c) == after_last(s@.subrange(0, k as int), c),
        decreases k,
    {
        assert(s@.subrange(0, k as int).drop_last() =~= s@.subrange(0, k - 1));
        k = k - 1;
    }
    proof {
        let head = s@.subrange(0, k as int);
        if k > 0 {
            assert(head.last() == s@[k - 1]);
        }
        assert(after_last(s@, c) == k);
    }
    k
}

/// The extension for an image fetched from `url`: what follows the last
/// `.` of the last path component, where that is not empty and at most four
/// bytes long, and `jpg` otherwise.
pub fn infer_extension(url: &str) -> (r: String)
    ensures
        r@ == inferred_extension(url@),
{
    let slash = index_after_last(url, '/');
    let component = url.substring_char(slash, url.unicode_len());
    let dot = index_after_last(component, '.');
    let tail = component.substring_char(dot, component.unicode_len());
    let bytes = tail.as_bytes().len();
    if dot > 0 && !tail.is_empty() && bytes <= 4 {
        tail.to_owned()
    } else {
        "jpg".to_owned()
    }
}

/// The file name `id.ext`.
pub fn asset_file_name(id: &str, ext: &str) -> (r: String)
    ensures
        r@ == file_name(id@, ext@),
{
    let mut name = id.to_owned();
    name.append(".");
    name.append(ext);
    proof {
        reveal_strlit(".");
        assert("."@ =~= seq!['.']);
    }
    name
}

/// The file name under which the image behind `url` is to be stored, given
/// the identifier `id` for it. A blank address has no image.
pub fn download_name(url: &str, id: &str) -> (r: Result<String, LibraryError>)
    ensures
        match r {
            Ok(name) => !is_blank(url@) && name@ == file_name(id@, inferred_extension(url@)),
            Err(e) => e == LibraryError::EmptyUrl && is_blank(url@),
        },
{
    if blank(url) {
        return Err(LibraryError::EmptyUrl);
    }
    let ext = infer_extension(url);
    Ok(asset_file_name(id, ext.as_str()))
}

/// A file name for the image behind `url`, under a fresh random identifier
/// of 36 characters. It fails exactly on a blank address.
pub fn fresh_download_name(url: &str) -> (r: Result<String, LibraryError>)
    ensures
        match r {
            Ok(name) => !is_blank(url@) && name@.len() >= 36 && name@ == file_name(
                name@.subrange(0, 36),
                inferred_extension(url@),
            ),
            Err(e) => e == LibraryError::EmptyUrl && is_blank(url@),
        },
{
    if blank(url) {
        return Err(LibraryError::EmptyUrl);
    }
    let id = random_id();
    let r = download_name(url, id.as_str());
    assert(r.is_ok() ==> r.unwrap()@.subrange(0, 36) =~= id@);
    r
}

/// A file name for an image that comes with no address, under a fresh random
/// identifier of 36 characters and the default extension.
pub fn fresh_asset_name() -> (name: String)
    ensures
        name@.len() >= 36,
        name@ == file_name(name@.subrange(0, 36), default_extension()),
{
    let id = random_id();
    let name = asset_file_name(id.as_str(), "jpg");
    assert(name@.subrange(0, 36) =~= id@);
    name
}

/// The cover that a book gets once fetching its image has been tried: the
/// local reference where the image was stored, and the address itself where
/// it was not.
pub fn cover_after_fetch(url: String, fetched: Option<String>) -> (cover: String)
    ensures
        cover@ == match fetched {
            Some(reference) => reference@,
            None => url@,
        },
{
    match fetched {
        Some(reference) => reference,
        None => url,
    }
}

} // verus!
