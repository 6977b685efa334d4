//! Where extra content comes from: snippets in a SQLite database.

use vstd::prelude::*;
use vstd::slice::slice_to_vec;

use crate::path;

verus! {

/// The statement that creates the table of snippets where it is missing.
pub const SCHEMA_SQL: &'static str =
    "CREATE TABLE IF NOT EXISTS snippets (
                id INTEGER PRIMARY KEY,
                filename TEXT NOT NULL,
                content TEXT NOT NULL,
                sort_order INTEGER DEFAULT 0
            )";

/// The query for the snippets of one file, in the order in which they are appended.
pub const SNIPPETS_SQL: &'static str =
    "SELECT content FROM snippets WHERE filename = ?1 ORDER BY sort_order";

/// The text of a byte string in which each ill-formed part is replaced, as
/// `String::from_utf8_lossy` gives it.
pub uninterp spec fn utf8_lossy(bytes: Seq<u8>) -> Seq<char>;

/// Calls `String::from_utf8_lossy`. Claims that the result depends on the bytes alone,
/// and that bytes which are well-formed UTF-8 are decoded and not changed. What stands
/// in place of an ill-formed part is not stated.
#[verifier::external_body]
fn from_utf8_lossy(bytes: &[u8]) -> (r: String)
    ensures
        r@ == utf8_lossy(bytes@),
        vstd::utf8::valid_utf8(bytes@) ==> r@ == vstd::utf8::decode_utf8(bytes@),
{
    String::from_utf8_lossy(bytes).into_owned()
}

/// The name under which the snippets of the file at `rel_path` are filed: its path
/// relative to the mount.
pub open spec fn snippet_name(rel_path: Seq<u8>) -> Seq<char> {
    utf8_lossy(path::mount_relative(rel_path))
}

/// Snippets one behind the other.
pub open spec fn snippet_text(rows: Seq<Seq<char>>) -> Seq<u8>
    decreases rows.len(),
{
    if rows.len() == 0 {
        Seq::empty()
    } else {
        snippet_text(rows.drop_last()) + vstd::utf8::encode_utf8(rows.last())
    }
}

/// The texts of a list of strings.
pub open spec fn texts(rows: Seq<String>) -> Seq<Seq<char>> {
    rows.map_values(|row: String| row@)
}

/// A source of snippets in a SQLite database.
pub struct SqliteProvider {
    db_path: Vec<u8>,
}

impl View for SqliteProvider {
    type V = Seq<u8>;

    closed spec fn view(&self) -> Seq<u8> {
        self.db_path@
    }
}

impl SqliteProvider {
    /// A source in the database at `db_path`.
    pub fn new(db_path: Vec<u8>) -> (r: Self)
        ensures
            r@ == db_path@,
    {
        SqliteProvider { db_path }
    }

    /// The database to open and the statement to execute in it before it is queried.
    pub fn ensure_schema(&self) -> (r: (Vec<u8>, &'static str))
        ensures
            r.0@ == self@,
            r.1@ == SCHEMA_SQL@,
    {
        (self.database(), SCHEMA_SQL)
    }

    /// The path of the database.
    pub fn database(&self) -> (r: Vec<u8>)
        ensures
            r@ == self@,
    {
        slice_to_vec(self.db_path.as_slice())
    }

    /// The name to query for the snippets of the file at `rel_path`.
    pub fn filename(rel_path: &[u8]) -> (r: String)
        ensures
            r@ == snippet_name(rel_path@),
            vstd::utf8::valid_utf8(path::mount_relative(rel_path@)) ==> r@
                == vstd::utf8::decode_utf8(path::mount_relative(rel_path@)),
    {
        from_utf8_lossy(path::relative_to_mount(rel_path))
    }

    /// The extra content that the snippets of a file make up.
    pub fn extra_content(rows: &Vec<String>) -> (r: Vec<u8>)
        ensures
            r@ == snippet_text(texts(rows@)),
    {
        let mut text: Vec<u8> = Vec::new();
        let ghost all = texts(rows@);
        let mut i: usize = 0;
        while i < rows.len()
            invariant
                i <= rows@.len(),
                all == texts(rows@),
                text@ == snippet_text(all.take(i as int)),
            decreases rows@.len() - i,
        {
            let ghost front = text@;
            let row = rows[i].as_str().as_bytes();
            text.extend_from_slice(row);
            proof {
                assert(text@ =~= front + row@);
                let next = all.take(i + 1);
                assert(next.drop_last() =~= all.take(i as int));
                assert(next.last() == rows@[i as int]@);
                assert(row@ == vstd::utf8::encode_utf8(next.last()));
            }
            i = i + 1;
        }
        assert(all.take(rows@.len() as int) =~= all);
        text
    }
}

/// The snippets of the file at `p`, as seen from the root directory of the mount, are filed
/// under `p`; so are those of an entry of a directory there.
pub proof fn law_snippets_are_filed_under_the_path_in_the_mount(p: Seq<u8>, name: Seq<u8>)
    requires
        p.len() > 0,
        p[0] != path::SEPARATOR,
        name.len() > 0,
        name[0] != path::SEPARATOR,
    ensures
        snippet_name(path::joined(seq![path::DOT], p)) == utf8_lossy(p),
        snippet_name(path::joined(path::joined(seq![path::DOT], p), name)) == utf8_lossy(
            path::joined(p, name),
        ),
{
    let below = path::joined(seq![path::DOT], p);
    assert(below.skip(2) =~= p);
    assert(path::joined(below, name).skip(2) =~= path::joined(p, name));
}

/// The snippets of two lists that are joined into one stand directly behind each other.
pub proof fn law_snippets_are_appended_in_order(rows: Seq<Seq<char>>, more: Seq<Seq<char>>)
    ensures
        snippet_text(rows + more) == snippet_text(rows) + snippet_text(more),
    decreases more.len(),
{
    let all = rows + more;
    if more.len() == 0 {
        assert(all =~= rows);
        assert(snippet_text(rows) + snippet_text(more) =~= snippet_text(rows));
    } else {
        assert(all.last() == more.last());
        assert(all.drop_last() =~= rows + more.drop_last());
        law_snippets_are_appended_in_order(rows, more.drop_last());
        assert(snippet_text(all) =~= snippet_text(rows) + snippet_text(more));
    }
}

/// The extra content of one snippet is the whole of it in UTF-8, and without snippets there
/// is none.
pub proof fn law_snippets_are_kept_whole(row: Seq<char>)
    ensures
        snippet_text(Seq::<Seq<char>>::empty()) == Seq::<u8>::empty(),
        snippet_text(seq![row]) == vstd::utf8::encode_utf8(row),
{
    reveal_with_fuel(snippet_text, 2);
    let one = seq![row];
    assert(one.drop_last() =~= Seq::<Seq<char>>::empty());
    assert(snippet_text(one) =~= vstd::utf8::encode_utf8(row));
}

/// The bytes of a snippet stand together in the extra content, behind those of the snippets
/// in front of it and before those behind it; so the lengths add up.
pub proof fn law_each_snippet_stands_in_the_extra_content(
    front: Seq<Seq<char>>,
    row: Seq<char>,
    back: Seq<Seq<char>>,
)
    ensures
        snippet_text(front + seq![row] + back) == snippet_text(front) + vstd::utf8::encode_utf8(
            row,
        ) + snippet_text(back),
{
    law_snippets_are_kept_whole(row);
    law_snippets_are_appended_in_order(front, seq![row]);
    law_snippets_are_appended_in_order(front + seq![row], back);
}

/// The texts of a list of strings are those of its strings, one by one.
pub proof fn law_texts_are_those_of_the_strings(rows: Seq<String>, i: int)
    requires
        0 <= i < rows.len(),
    ensures
        texts(rows).len() == rows.len(),
        texts(rows)[i] == rows[i]@,
{
}

/// The snippets of a file are asked for by the whole of its path inside the mount.
pub proof fn law_snippets_are_asked_for_by_the_whole_path(p: Seq<u8>)
    ensures
        snippet_name(seq![0x2eu8, 0x2fu8] + p) == utf8_lossy(p),
        !(p.len() >= 2 && p[0] == 0x2e && p[1] == 0x2f) ==> snippet_name(p) == utf8_lossy(p),
{
    path::law_mount_relative_drops_the_front(p);
}

} // verus!
