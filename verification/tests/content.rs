use dycon::intercept::{InterceptError, InterceptMatcher};
use dycon::provider::{SqliteProvider, SCHEMA_SQL, SNIPPETS_SQL};

fn patterns(texts: &[&str]) -> Vec<String> {
    texts.iter().map(|t| t.to_string()).collect()
}

#[test]
fn names_are_matched_by_any_pattern() {
    let matcher = InterceptMatcher::new(&patterns(&["NOTES.md", "*.config"])).unwrap();
    assert!(matcher.is_intercepted(b"NOTES.md"));
    assert!(matcher.is_intercepted(b"app.config"));
    assert!(matcher.is_intercepted(b".config"));
    assert!(!matcher.is_intercepted(b"notes.md"));
    assert!(!matcher.is_intercepted(b"config"));
    assert!(!matcher.is_intercepted(b""));
}

#[test]
fn names_need_not_be_text() {
    let matcher = InterceptMatcher::new(&patterns(&["*.md"])).unwrap();
    assert!(matcher.is_intercepted(b"\xff\xfe.md"));
    assert!(!matcher.is_intercepted(b"\xff\xfe.mdx"));
}

#[test]
fn no_pattern_matches_nothing() {
    let matcher = InterceptMatcher::new(&[]).unwrap();
    assert!(!matcher.is_intercepted(b"NOTES.md"));
    assert!(!matcher.is_intercepted(b""));
}

#[test]
fn first_bad_pattern_is_told() {
    match InterceptMatcher::new(&patterns(&["a", "[", "{"])) {
        Err(InterceptError::Pattern { index, error }) => {
            assert_eq!(index, 1);
            assert_eq!(error.glob(), Some("["));
        }
        _ => panic!("a class that is not closed was accepted"),
    }
}

#[test]
fn patterns_that_are_too_large_together_are_told() {
    let huge = format!("{}x", "?".repeat(2_000_000));
    match InterceptMatcher::new(&[huge]) {
        Err(InterceptError::Compilation { error }) => assert!(!error.to_string().is_empty()),
        Err(InterceptError::Pattern { .. }) => panic!("the pattern is well-formed"),
        Ok(_) => panic!("the pattern is too large to compile"),
    }
}

#[test]
fn extra_content_stands_behind_a_line_feed() {
    let full = InterceptMatcher::assemble(b"real".to_vec(), b"extra");
    assert_eq!(full, b"real\nextra".to_vec());
    assert_eq!(InterceptMatcher::assemble(b"real".to_vec(), b""), b"real".to_vec());
    assert_eq!(InterceptMatcher::assemble(Vec::new(), b"x"), b"\nx".to_vec());
}

#[test]
fn inflated_size_counts_the_line_feed() {
    assert_eq!(InterceptMatcher::inflated_size(4, Some(b"extra")), Some(10));
    assert_eq!(InterceptMatcher::inflated_size(0, Some(b"x")), Some(2));
    assert_eq!(InterceptMatcher::inflated_size(4, Some(b"")), None);
    assert_eq!(InterceptMatcher::inflated_size(4, None), None);
    assert_eq!(InterceptMatcher::inflated_size(u64::MAX - 2, Some(b"x")), Some(u64::MAX));
}

#[test]
fn inflated_size_is_the_length_assembled() {
    for extra in [&b""[..], b"a", b"two\nlines"] {
        let content = b"content".to_vec();
        let size = content.len() as u64;
        let full = InterceptMatcher::assemble(content, extra);
        let told = InterceptMatcher::inflated_size(size, Some(extra)).unwrap_or(size);
        assert_eq!(full.len() as u64, told);
    }
}

#[test]
fn snippets_are_concatenated() {
    let none: Vec<String> = Vec::new();
    assert_eq!(SqliteProvider::extra_content(&none), Vec::<u8>::new());
    assert_eq!(SqliteProvider::extra_content(&patterns(&["a"])), b"a".to_vec());
    assert_eq!(SqliteProvider::extra_content(&patterns(&["a", "b"])), b"ab".to_vec());
    assert_eq!(SqliteProvider::extra_content(&patterns(&["", ""])), b"".to_vec());
    assert_eq!(SqliteProvider::extra_content(&patterns(&[""])), b"".to_vec());
    assert_eq!(
        SqliteProvider::extra_content(&patterns(&["\u{e4}", "c"])),
        vec![0xc3, 0xa4, b'c']
    );
}

#[test]
fn snippets_are_filed_under_the_path_in_the_mount() {
    assert_eq!(SqliteProvider::filename(b"./NOTES.md"), "NOTES.md");
    assert_eq!(SqliteProvider::filename(b"./sub/NOTES.md"), "sub/NOTES.md");
    assert_eq!(SqliteProvider::filename("./\u{e4}.md".as_bytes()), "\u{e4}.md");
    assert_eq!(SqliteProvider::filename(b"./\xff.md"), "\u{fffd}.md");
}

#[test]
fn schema_is_created_in_the_database() {
    let provider = SqliteProvider::new(b"/tmp/dycon.db".to_vec());
    let (db, sql) = provider.ensure_schema();
    assert_eq!(db, b"/tmp/dycon.db".to_vec());
    assert_eq!(sql, SCHEMA_SQL);
    assert_eq!(provider.database(), b"/tmp/dycon.db".to_vec());
    assert!(SCHEMA_SQL.starts_with("CREATE TABLE IF NOT EXISTS snippets ("));
    for column in [
        "id INTEGER PRIMARY KEY",
        "filename TEXT NOT NULL",
        "content TEXT NOT NULL",
        "sort_order INTEGER DEFAULT 0",
    ] {
        assert!(SCHEMA_SQL.contains(column), "{column}");
    }
}

#[test]
fn query_orders_by_sort_order() {
    assert_eq!(
        SNIPPETS_SQL,
        "SELECT content FROM snippets WHERE filename = ?1 ORDER BY sort_order"
    );
}

#[test]
fn snippets_of_a_file_come_in_their_order() {
    let db = rusqlite::Connection::open_in_memory().unwrap();
    db.execute_batch(SCHEMA_SQL).unwrap();
    for (filename, content, sort_order) in
        [("NOTES.md", "A", 2), ("NOTES.md", "B", 1), ("other", "C", 0)]
    {
        db.execute(
            "INSERT INTO snippets (filename, content, sort_order) VALUES (?1, ?2, ?3)",
            (filename, content, sort_order),
        )
        .unwrap();
    }
    db.execute_batch(SCHEMA_SQL).unwrap();
    let mut statement = db.prepare(SNIPPETS_SQL).unwrap();
    let rows: Vec<String> = statement
        .query_map([SqliteProvider::filename(b"./NOTES.md")], |row| row.get(0))
        .unwrap()
        .map(|row| row.unwrap())
        .collect();
    assert_eq!(SqliteProvider::extra_content(&rows), b"BA".to_vec());
}
