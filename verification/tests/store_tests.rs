use reading_shelf::book::Book;
use reading_shelf::error::LibraryError;
use reading_shelf::store::RecordStore;

fn book(id: &str, title: &str, author: &str, cover: &str, status: &str, total: u32, read: u32) -> Book {
    Book {
        id: id.to_string(),
        title: title.to_string(),
        author: author.to_string(),
        cover: cover.to_string(),
        cover_color: "#112233".to_string(),
        status: status.to_string(),
        total_pages: total,
        pages_read: read,
        date_added: "2024-05-01T10:00:00+00:00".to_string(),
    }
}

fn fields(b: &Book) -> (String, String, String, String, String, String, u32, u32, String) {
    (
        b.id.clone(),
        b.title.clone(),
        b.author.clone(),
        b.cover.clone(),
        b.cover_color.clone(),
        b.status.clone(),
        b.total_pages,
        b.pages_read,
        b.date_added.clone(),
    )
}

fn all_fields(books: &[Book]) -> Vec<(String, String, String, String, String, String, u32, u32, String)> {
    books.iter().map(fields).collect()
}

fn sample() -> Vec<Book> {
    vec![
        book("a", "Dune", "Frank Herbert", "/data/covers/a.jpg", "to-read", 200, 0),
        book("b", "Emma", "Jane Austen", "https://example.org/emma.png", "reading", 0, 12),
        book("c", "Ulysses", "James Joyce", "", "finished", 700, 700),
    ]
}

#[test]
fn new_store_is_empty() {
    let store = RecordStore::new();
    assert_eq!(store.len(), 0);
    assert!(store.load().is_empty());
}

#[test]
fn load_after_replace_all_returns_the_list() {
    let mut store = RecordStore::from_records(vec![book("z", "Old", "Nobody", "", "to-read", 1, 0)]);
    store.replace_all(sample());
    assert_eq!(all_fields(&store.load()), all_fields(&sample()));
    assert_eq!(store.len(), 3);
    store.replace_all(Vec::new());
    assert!(store.load().is_empty());
}

#[test]
fn clear_empties_the_library() {
    let mut store = RecordStore::from_records(sample());
    store.clear();
    assert_eq!(store.len(), 0);
}

#[test]
fn append_keeps_insertion_order_and_allows_duplicates() {
    let mut store = RecordStore::from_records(sample());
    store.append(book("d", "dune", "frank herbert", "", "to-read", 10, 0));
    let ids: Vec<String> = store.load().into_iter().map(|b| b.id).collect();
    assert_eq!(ids, vec!["a", "b", "c", "d"]);
}

#[test]
fn find_gives_the_first_match() {
    let mut list = sample();
    list.push(book("b", "Second b", "X", "", "to-read", 0, 0));
    let store = RecordStore::from_records(list);
    assert_eq!(store.find("a"), Some(0));
    assert_eq!(store.find("b"), Some(1));
    assert_eq!(store.find("c"), Some(2));
    assert_eq!(store.find("B"), None);
    assert_eq!(store.find(""), None);
}

#[test]
fn contains_pair_ignores_ascii_case_only() {
    let store = RecordStore::from_records(sample());
    assert!(store.contains_pair("Dune", "Frank Herbert"));
    assert!(store.contains_pair("DUNE", "frank HERBERT"));
    assert!(!store.contains_pair("Dune", "Jane Austen"));
    assert!(!store.contains_pair("Dune ", "Frank Herbert"));
    assert!(!store.contains_pair("Dun", "Frank Herbert"));
    let accented = RecordStore::from_records(vec![book("1", "Été", "Émile", "", "to-read", 0, 0)]);
    assert!(accented.contains_pair("Été", "Émile"));
    assert!(!accented.contains_pair("été", "Émile"));
}

#[test]
fn adding_a_duplicate_fails_and_changes_nothing() {
    let mut store = RecordStore::from_records(sample());
    let r = store.add_book(
        "dUNE".to_string(),
        "FRANK herbert".to_string(),
        "https://example.org/dune.jpg".to_string(),
        "to-read".to_string(),
        0,
        300,
    );
    assert!(matches!(r, Err(LibraryError::Duplicate)));
    assert_eq!(all_fields(&store.load()), all_fields(&sample()));
    let r = store.insert_new(
        "new-id".to_string(),
        "2025-01-01T00:00:00+00:00".to_string(),
        "emma".to_string(),
        "jane austen".to_string(),
        "".to_string(),
        "to-read".to_string(),
        0,
        0,
    );
    assert!(matches!(r, Err(LibraryError::Duplicate)));
    assert_eq!(all_fields(&store.load()), all_fields(&sample()));
}

#[test]
fn insert_new_builds_the_book_and_appends_it() {
    let mut store = RecordStore::from_records(sample());
    let made = store
        .insert_new(
            "id-9".to_string(),
            "2025-01-01T00:00:00+00:00".to_string(),
            "Persuasion".to_string(),
            "Jane Austen".to_string(),
            "/data/covers/p.jpg".to_string(),
            "reading".to_string(),
            7,
            250,
        )
        .unwrap();
    let expected = (
        "id-9".to_string(),
        "Persuasion".to_string(),
        "Jane Austen".to_string(),
        "/data/covers/p.jpg".to_string(),
        "#FF9A9E".to_string(),
        "reading".to_string(),
        250,
        7,
        "2025-01-01T00:00:00+00:00".to_string(),
    );
    assert_eq!(fields(&made), expected);
    let now = store.load();
    assert_eq!(now.len(), 4);
    assert_eq!(all_fields(&now[..3]), all_fields(&sample()));
    assert_eq!(fields(&now[3]), expected);
}

#[test]
fn add_book_gives_a_fresh_id_and_a_date() {
    let mut store = RecordStore::new();
    let first = store
        .add_book("A".to_string(), "X".to_string(), "c1".to_string(), "to-read".to_string(), 1, 2)
        .unwrap();
    let second = store
        .add_book("B".to_string(), "X".to_string(), "c2".to_string(), "reading".to_string(), 3, 4)
        .unwrap();
    assert!(first.id.chars().count() >= 36);
    assert!(second.id.chars().count() >= 36);
    assert_ne!(first.id, second.id);
    assert!(!first.date_added.is_empty());
    assert!(first.date_added.contains('T'));
    assert_eq!(first.cover_color, "#FF9A9E");
    assert_eq!(first.title, "A");
    assert_eq!(first.author, "X");
    assert_eq!(first.cover, "c1");
    assert_eq!(first.status, "to-read");
    assert_eq!(first.pages_read, 1);
    assert_eq!(first.total_pages, 2);
    let now = store.load();
    assert_eq!(now.len(), 2);
    assert_eq!(fields(&now[0]), fields(&first));
    assert_eq!(fields(&now[1]), fields(&second));
}

#[test]
fn updates_on_an_absent_id_are_not_found_and_change_nothing() {
    let mut store = RecordStore::from_records(sample());
    assert_eq!(store.update_status("nope", "reading".to_string()), Err(LibraryError::NotFound));
    assert_eq!(store.update_progress("nope", 5), Err(LibraryError::NotFound));
    assert_eq!(store.update_cover("nope", "x".to_string()), Err(LibraryError::NotFound));
    assert_eq!(store.remove("nope"), Err(LibraryError::NotFound));
    assert_eq!(all_fields(&store.load()), all_fields(&sample()));
    let mut empty = RecordStore::new();
    assert_eq!(empty.remove("a"), Err(LibraryError::NotFound));
    assert_eq!(empty.len(), 0);
}

#[test]
fn update_status_touches_one_field_of_one_book() {
    let mut store = RecordStore::from_records(sample());
    assert_eq!(store.update_status("b", "abandoned".to_string()), Ok(()));
    let mut expected = sample();
    expected[1].status = "abandoned".to_string();
    assert_eq!(all_fields(&store.load()), all_fields(&expected));
}

#[test]
fn update_cover_touches_one_field_of_one_book() {
    let mut store = RecordStore::from_records(sample());
    assert_eq!(store.update_cover("c", "/data/covers/new.jpg".to_string()), Ok(()));
    let mut expected = sample();
    expected[2].cover = "/data/covers/new.jpg".to_string();
    assert_eq!(all_fields(&store.load()), all_fields(&expected));
}

#[test]
fn progress_to_the_total_finishes_the_book() {
    let mut store = RecordStore::from_records(sample());
    assert_eq!(store.update_progress("a", 200), Ok(()));
    let now = store.load();
    assert_eq!(now[0].status, "finished");
    assert_eq!(now[0].pages_read, 200);
    let mut expected = sample();
    expected[0].status = "finished".to_string();
    expected[0].pages_read = 200;
    assert_eq!(all_fields(&now), all_fields(&expected));
}

#[test]
fn first_pages_move_a_waiting_book_to_reading() {
    let mut store = RecordStore::from_records(sample());
    assert_eq!(store.update_progress("a", 50), Ok(()));
    let now = store.load();
    assert_eq!(now[0].status, "reading");
    assert_eq!(now[0].pages_read, 50);
    assert_eq!(now[0].total_pages, 200);
}

#[test]
fn progress_beyond_the_total_is_held_at_the_total() {
    let mut store = RecordStore::from_records(sample());
    assert_eq!(store.update_progress("a", 4000), Ok(()));
    let now = store.load();
    assert_eq!(now[0].status, "finished");
    assert_eq!(now[0].pages_read, 200);
}

#[test]
fn progress_rule_on_single_books() {
    let mut b = book("x", "T", "A", "", "to-read", 0, 0);
    b.record_progress(0);
    assert_eq!((b.status.as_str(), b.pages_read), ("to-read", 0));
    b.record_progress(40);
    assert_eq!((b.status.as_str(), b.pages_read), ("reading", 40));
    b.record_progress(u32::MAX);
    assert_eq!((b.status.as_str(), b.pages_read), ("reading", u32::MAX));

    let mut c = book("y", "T", "A", "", "paused", 100, 10);
    c.record_progress(99);
    assert_eq!((c.status.as_str(), c.pages_read), ("paused", 99));
    c.record_progress(100);
    assert_eq!((c.status.as_str(), c.pages_read), ("finished", 100));
    c.record_progress(3);
    assert_eq!((c.status.as_str(), c.pages_read), ("finished", 3));

    let mut d = book("z", "T", "A", "", "to-read", 100, 0);
    d.record_progress(0);
    assert_eq!((d.status.as_str(), d.pages_read), ("to-read", 0));
    let mut e = book("z", "T", "A", "", "To-Read", 100, 0);
    e.record_progress(5);
    assert_eq!((e.status.as_str(), e.pages_read), ("To-Read", 5));
}

#[test]
fn removing_a_book_with_a_local_cover_hands_back_its_asset() {
    let mut store = RecordStore::from_records(sample());
    assert_eq!(store.remove("a"), Ok(Some("/data/covers/a.jpg".to_string())));
    assert_eq!(all_fields(&store.load()), all_fields(&sample()[1..]));
}

#[test]
fn removing_a_book_with_a_remote_or_empty_cover_hands_back_nothing() {
    let mut store = RecordStore::from_records(sample());
    assert_eq!(store.remove("b"), Ok(None));
    assert_eq!(store.remove("c"), Ok(None));
    assert_eq!(all_fields(&store.load()), all_fields(&sample()[..1]));
}

#[test]
fn remove_takes_only_the_first_of_equal_ids() {
    let mut list = sample();
    list.push(book("a", "Again", "Other", "http://x/y.png", "to-read", 0, 0));
    let mut store = RecordStore::from_records(list);
    assert_eq!(store.remove("a"), Ok(Some("/data/covers/a.jpg".to_string())));
    let ids: Vec<String> = store.load().into_iter().map(|b| b.id).collect();
    assert_eq!(ids, vec!["b", "c", "a"]);
}

#[test]
fn book_new_uses_the_default_accent() {
    let b = Book::new(
        "i".to_string(),
        "t".to_string(),
        "a".to_string(),
        "c".to_string(),
        "s".to_string(),
        9,
        4,
        "d".to_string(),
    );
    assert_eq!(
        fields(&b),
        (
            "i".to_string(),
            "t".to_string(),
            "a".to_string(),
            "c".to_string(),
            "#FF9A9E".to_string(),
            "s".to_string(),
            9,
            4,
            "d".to_string()
        )
    );
    let c = b.clone();
    assert_eq!(fields(&c), fields(&b));
}

#[test]
fn error_messages() {
    assert_eq!(LibraryError::NotFound.message(), "Book not found");
    assert_eq!(LibraryError::Duplicate.message(), "Book already exists in library");
    assert_eq!(LibraryError::InvalidBackup.message(), "Invalid backup file");
    assert_eq!(LibraryError::EmptyUrl.message(), "empty url");
}

#[test]
fn update_applies_the_mutator_to_the_first_match() {
    let mut store = RecordStore::from_records(sample());
    let r = store.update("b", |mut b: Book| {
        b.title = "Emma (annotated)".to_string();
        b.total_pages = 500;
        b
    });
    assert_eq!(r, Ok(()));
    let mut expected = sample();
    expected[1].title = "Emma (annotated)".to_string();
    expected[1].total_pages = 500;
    assert_eq!(all_fields(&store.load()), all_fields(&expected));
}

#[test]
fn update_on_an_absent_id_does_not_run_the_mutator() {
    let mut store = RecordStore::from_records(sample());
    let mut calls = 0;
    let r = store.update("missing", |b: Book| {
        calls += 1;
        b
    });
    assert_eq!(r, Err(LibraryError::NotFound));
    assert_eq!(calls, 0);
    assert_eq!(all_fields(&store.load()), all_fields(&sample()));
}

#[test]
fn open_treats_an_unreadable_document_as_empty() {
    assert_eq!(RecordStore::open(None).len(), 0);
    let store = RecordStore::open(Some(sample()));
    assert_eq!(all_fields(&store.load()), all_fields(&sample()));
}

#[test]
fn unused_id_keeps_a_free_identifier() {
    let store = RecordStore::from_records(sample());
    assert_eq!(store.unused_id("d".to_string()), "d");
    assert_eq!(store.unused_id("".to_string()), "");
    assert_eq!(RecordStore::new().unused_id("a".to_string()), "a");
}

#[test]
fn unused_id_lengthens_a_taken_identifier() {
    let mut list = sample();
    assert_eq!(RecordStore::from_records(sample()).unused_id("a".to_string()), "a0");
    list.push(book("a0", "T4", "A4", "", "to-read", 0, 0));
    list.push(book("a00", "T5", "A5", "", "to-read", 0, 0));
    list.push(book("a0000", "T6", "A6", "", "to-read", 0, 0));
    let store = RecordStore::from_records(list);
    assert_eq!(store.unused_id("a".to_string()), "a000");
    assert_eq!(store.unused_id("a0".to_string()), "a000");
    assert_eq!(store.unused_id("b".to_string()), "b0");
}

#[test]
fn a_new_book_never_shares_its_id() {
    let mut store = RecordStore::from_records(sample());
    let made = store
        .insert_new(
            "b".to_string(),
            "2025-01-01T00:00:00+00:00".to_string(),
            "Persuasion".to_string(),
            "Jane Austen".to_string(),
            "".to_string(),
            "to-read".to_string(),
            0,
            0,
        )
        .unwrap();
    assert_eq!(made.id, "b0");
    let again = store
        .insert_new(
            "b".to_string(),
            "2025-01-01T00:00:00+00:00".to_string(),
            "Sanditon".to_string(),
            "Jane Austen".to_string(),
            "".to_string(),
            "to-read".to_string(),
            0,
            0,
        )
        .unwrap();
    assert_eq!(again.id, "b00");
    let ids: Vec<String> = store.load().into_iter().map(|b| b.id).collect();
    assert_eq!(ids, vec!["a", "b", "c", "b0", "b00"]);
}

#[test]
fn added_books_have_distinct_ids() {
    let mut store = RecordStore::new();
    for i in 0..50 {
        store
            .add_book(format!("Title {}", i), "A".to_string(), "".to_string(), "to-read".to_string(), 0, 0)
            .unwrap();
    }
    let mut ids: Vec<String> = store.load().into_iter().map(|b| b.id).collect();
    assert!(ids.iter().all(|id| id.chars().count() >= 36));
    ids.sort();
    ids.dedup();
    assert_eq!(ids.len(), 50);
}
