//! What holds of the filesystem as a whole.

use vstd::prelude::*;

use crate::attr;
use crate::attr::{FileType, Stat};
use crate::inode_map;
use crate::intercept;
use crate::path;
use crate::protocol;
use crate::protocol::{
    AttrChange, Call, DirItem, Form, FsCallView, FsOutcomeView, FsPendingView, FsStepView, Outcome,
    Pending, RawEntry, Reply, Step,
};
use crate::provider;
use crate::state;
use crate::state::{FsState, EBADF, EIO, ENOENT, O_RDWR, O_WRONLY};

pub mod requests;

verus! {

/// The state and the step that a request comes to when its calls have these outcomes.
pub open spec fn after(s: FsState, step: FsStepView, outcomes: Seq<FsOutcomeView>) -> (
    FsState,
    FsStepView,
)
    decreases outcomes.len(),
{
    if outcomes.len() == 0 {
        (s, step)
    } else {
        match step {
            Step::Call { next, .. } => {
                let (s2, step2) = s.resumed(next, outcomes[0]);
                after(s2, step2, outcomes.drop_first())
            },
            Step::Finish { .. } => (s, step),
        }
    }
}

/// Whether an entry of a directory is intercepted goes by its name alone, wherever the
/// directory is.
pub proof fn law_interception_goes_by_the_name(s: FsState, p: Seq<u8>, name: Seq<u8>)
    requires
        p.len() > 0,
        path::is_entry_name(name),
        name != seq![path::DOT, path::DOT],
    ensures
        s.intercepts(path::joined(p, name)) == intercept::some_glob_matches(s.patterns, name),
{
    path::law_join_is_undone_by_parent_and_file_name(p, name);
}

/// The bytes of several reads, one behind the other.
pub open spec fn concatenated(chunks: Seq<Seq<u8>>) -> Seq<u8>
    decreases chunks.len(),
{
    if chunks.len() == 0 {
        Seq::empty()
    } else {
        chunks[0] + concatenated(chunks.drop_first())
    }
}

/// Reads that each gave some bytes.
pub open spec fn chunk_outcomes(chunks: Seq<Seq<u8>>) -> Seq<FsOutcomeView> {
    chunks.map_values(|chunk: Seq<u8>| FsOutcomeView::Data(chunk))
}

/// Whether no chunk is empty.
pub open spec fn no_empty_chunk(chunks: Seq<Seq<u8>>) -> bool {
    forall|i: int| 0 <= i < chunks.len() ==> (#[trigger] chunks[i]).len() > 0
}

/// However the content of an intercepted file comes in, what was read is what its
/// snippets are put behind once the file is complete.
pub proof fn lemma_content_is_collected(
    s: FsState,
    p: Seq<u8>,
    fd: i32,
    offset: u64,
    size: u32,
    real_size: u64,
    content: Seq<u8>,
    chunks: Seq<Seq<u8>>,
)
    requires
        no_empty_chunk(chunks),
        content.len() + concatenated(chunks).len() <= real_size,
    ensures
        after(
            s,
            s.read_on(p, fd, offset, size, real_size, content),
            chunk_outcomes(chunks),
        ) == (s, s.read_on(p, fd, offset, size, real_size, content + concatenated(chunks))),
    decreases chunks.len(),
{
    if chunks.len() == 0 {
        assert(content + concatenated(chunks) =~= content);
    } else {
        let rest = chunks.drop_first();
        let more = content + chunks[0];
        assert(chunk_outcomes(chunks).drop_first() =~= chunk_outcomes(rest));
        assert(chunk_outcomes(chunks)[0] == FsOutcomeView::Data(chunks[0]));
        assert forall|i: int| 0 <= i < rest.len() implies (#[trigger] rest[i]).len() > 0 by {
            assert(rest[i] == chunks[i + 1]);
        }
        lemma_content_is_collected(s, p, fd, offset, size, real_size, more, rest);
        assert(more + concatenated(rest) =~= content + concatenated(chunks));
    }
}

/// Running on two lists of outcomes in turn is running on both.
pub proof fn lemma_after_concat(
    s: FsState,
    step: FsStepView,
    first: Seq<FsOutcomeView>,
    second: Seq<FsOutcomeView>,
)
    ensures
        after(s, step, first + second) == after(
            after(s, step, first).0,
            after(s, step, first).1,
            second,
        ),
    decreases first.len(),
{
    if first.len() == 0 {
        assert(first + second =~= second);
    } else {
        match step {
            Step::Call { next, .. } => {
                let (s2, step2) = s.resumed(next, first[0]);
                assert((first + second).drop_first() =~= first.drop_first() + second);
                lemma_after_concat(s2, step2, first.drop_first(), second);
            },
            Step::Finish { .. } => {},
        }
    }
}

/// Running on one outcome is resuming with it.
proof fn lemma_after_one(s: FsState, step: FsStepView, outcome: FsOutcomeView)
    requires
        step is Call,
    ensures
        after(s, step, seq![outcome]) == s.resumed(step->next, outcome),
{
    reveal_with_fuel(after, 2);
    assert(seq![outcome].drop_first() =~= Seq::empty());
}

/// Running on two outcomes is resuming with one after the other.
proof fn lemma_after_two(
    s: FsState,
    step: FsStepView,
    first: FsOutcomeView,
    second: FsOutcomeView,
)
    requires
        step is Call,
    ensures
        after(s, step, seq![first, second]) == after(
            s.resumed(step->next, first).0,
            s.resumed(step->next, first).1,
            seq![second],
        ),
{
    assert(seq![first, second].drop_first() =~= seq![second]);
}

/// Once an intercepted file has been read, the read goes on with the answer to the query
/// for its snippets.
proof fn lemma_read_to_the_snippets(
    s: FsState,
    ino: u64,
    fh: u64,
    offset: u64,
    size: u32,
    p: Seq<u8>,
    st: Stat,
    chunks: Seq<Seq<u8>>,
    answer: FsOutcomeView,
)
    requires
        s.inodes.path_of(ino) == Some(p),
        s.files.contains_key(fh),
        s.intercepts(p),
        no_empty_chunk(chunks),
        concatenated(chunks).len() == st.st_size as u64,
    ensures
        after(
            s,
            s.read(ino, fh, offset, size),
            seq![FsOutcomeView::Status(st)] + chunk_outcomes(chunks) + seq![answer],
        ) == s.resumed(
            Pending::ReadExtra { offset, size, content: concatenated(chunks) },
            answer,
        ),
{
    let fd = s.files[fh];
    let real_size = st.st_size as u64;
    let status = seq![FsOutcomeView::Status(st)];
    let data = chunk_outcomes(chunks);
    let start = s.read(ino, fh, offset, size);
    lemma_after_concat(s, start, status + data, seq![answer]);
    lemma_after_concat(s, start, status, data);
    let none = Seq::<u8>::empty();
    lemma_after_one(s, start, FsOutcomeView::Status(st));
    lemma_content_is_collected(s, p, fd, offset, size, real_size, none, chunks);
    assert(none + concatenated(chunks) =~= concatenated(chunks));
    let query = s.query(p, Pending::ReadExtra { offset, size, content: concatenated(chunks) });
    lemma_after_one(s, query, answer);
}

/// A read of an intercepted file gives the part that was asked for of the content of the
/// file, a line feed and its snippets; in whatever pieces the content comes in.
pub proof fn law_read_gives_content_and_snippets(
    s: FsState,
    ino: u64,
    fh: u64,
    offset: u64,
    size: u32,
    p: Seq<u8>,
    st: Stat,
    chunks: Seq<Seq<u8>>,
    rows: Seq<Seq<char>>,
)
    requires
        s.inodes.path_of(ino) == Some(p),
        s.files.contains_key(fh),
        s.intercepts(p),
        no_empty_chunk(chunks),
        concatenated(chunks).len() == st.st_size as u64,
    ensures
        after(
            s,
            s.read(ino, fh, offset, size),
            seq![FsOutcomeView::Status(st)] + chunk_outcomes(chunks) + seq![
                FsOutcomeView::Rows(rows),
            ],
        ) == (
            s,
            state::replied(
                Reply::Data(
                    state::window(
                        intercept::assembled(concatenated(chunks), provider::snippet_text(rows)),
                        offset,
                        size,
                    ),
                ),
            ),
        ),
{
    let answer = FsOutcomeView::Rows(rows);
    lemma_read_to_the_snippets(s, ino, fh, offset, size, p, st, chunks, answer);
}

/// Where an intercepted file turns out to be shorter than it was said to be, or cannot be
/// read to its end, its snippets are put behind what was read.
pub proof fn law_short_read_keeps_what_was_read(
    s: FsState,
    ino: u64,
    fh: u64,
    offset: u64,
    size: u32,
    p: Seq<u8>,
    st: Stat,
    chunks: Seq<Seq<u8>>,
    end: FsOutcomeView,
    rows: Seq<Seq<char>>,
)
    requires
        s.inodes.path_of(ino) == Some(p),
        s.files.contains_key(fh),
        s.intercepts(p),
        no_empty_chunk(chunks),
        concatenated(chunks).len() < st.st_size as u64,
        end is Failure || end == FsOutcomeView::Data(Seq::empty()),
    ensures
        after(
            s,
            s.read(ino, fh, offset, size),
            seq![FsOutcomeView::Status(st)] + chunk_outcomes(chunks) + seq![
                end,
                FsOutcomeView::Rows(rows),
            ],
        ) == (
            s,
            state::replied(
                Reply::Data(
                    state::window(
                        intercept::assembled(concatenated(chunks), provider::snippet_text(rows)),
                        offset,
                        size,
                    ),
                ),
            ),
        ),
{
    let fd = s.files[fh];
    let real_size = st.st_size as u64;
    let status = seq![FsOutcomeView::Status(st)];
    let data = chunk_outcomes(chunks);
    let last = seq![end, FsOutcomeView::Rows(rows)];
    let start = s.read(ino, fh, offset, size);
    lemma_after_concat(s, start, status + data, last);
    lemma_after_concat(s, start, status, data);
    let none = Seq::<u8>::empty();
    lemma_after_one(s, start, FsOutcomeView::Status(st));
    lemma_content_is_collected(s, p, fd, offset, size, real_size, none, chunks);
    assert(none + concatenated(chunks) =~= concatenated(chunks));
    let content = concatenated(chunks);
    let middle = s.read_on(p, fd, offset, size, real_size, content);
    let query = s.query(p, Pending::ReadExtra { offset, size, content });
    assert(last =~= seq![end] + seq![FsOutcomeView::Rows(rows)]);
    lemma_after_concat(s, middle, seq![end], seq![FsOutcomeView::Rows(rows)]);
    lemma_after_one(s, middle, end);
    lemma_after_one(s, query, FsOutcomeView::Rows(rows));
}

/// The size that is reported of an intercepted regular file is the length of what its
/// readers get, as long as neither the file nor its snippets change in between. The kernel
/// is told to keep nothing of it.
pub proof fn law_reported_size_is_what_a_read_gives(
    s: FsState,
    ino: u64,
    fh: u64,
    offset: u64,
    size: u32,
    p: Seq<u8>,
    st: Stat,
    chunks: Seq<Seq<u8>>,
    rows: Seq<Seq<char>>,
)
    requires
        s.inodes.path_of(ino) == Some(p),
        s.files.contains_key(fh),
        s.intercepts(p),
        attr::file_type_of(st.st_mode) == FileType::RegularFile,
        no_empty_chunk(chunks),
        concatenated(chunks).len() == st.st_size as u64,
        protocol::inflated_size_fits(st, rows),
    ensures
        ({
            let full = intercept::assembled(concatenated(chunks), provider::snippet_text(rows));
            &&& full.len() <= u64::MAX
            &&& after(
                s,
                s.getattr(ino),
                seq![FsOutcomeView::Status(st), FsOutcomeView::Rows(rows)],
            ) == (
                s,
                state::replied(Reply::Attr { ttl: 0, attr: attr::attr_of(st, full.len() as u64) }),
            )
            &&& after(
                s,
                s.read(ino, fh, offset, size),
                seq![FsOutcomeView::Status(st)] + chunk_outcomes(chunks) + seq![
                    FsOutcomeView::Rows(rows),
                ],
            ) == (s, state::replied(Reply::Data(state::window(full, offset, size))))
        }),
{
    law_read_gives_content_and_snippets(s, ino, fh, offset, size, p, st, chunks, rows);
    let form = Form::Attr { ttl: 0, close: None };
    let query = s.query(p, Pending::Describe { st, form });
    lemma_after_two(s, s.getattr(ino), FsOutcomeView::Status(st), FsOutcomeView::Rows(rows));
    lemma_after_one(s, query, FsOutcomeView::Rows(rows));
}

/// Without an answer from the database an intercepted file is reported with its own size,
/// and reading it fails.
pub proof fn law_without_snippets(
    s: FsState,
    ino: u64,
    fh: u64,
    offset: u64,
    size: u32,
    p: Seq<u8>,
    st: Stat,
    chunks: Seq<Seq<u8>>,
)
    requires
        s.inodes.path_of(ino) == Some(p),
        s.files.contains_key(fh),
        s.intercepts(p),
        attr::file_type_of(st.st_mode) == FileType::RegularFile,
        no_empty_chunk(chunks),
        concatenated(chunks).len() == st.st_size as u64,
    ensures
        after(
            s,
            s.getattr(ino),
            seq![FsOutcomeView::Status(st), FsOutcomeView::Unavailable],
        ) == (
            s,
            state::replied(
                Reply::Attr { ttl: 0, attr: attr::attr_of(st, st.st_size as u64) },
            ),
        ),
        after(
            s,
            s.read(ino, fh, offset, size),
            seq![FsOutcomeView::Status(st)] + chunk_outcomes(chunks) + seq![
                FsOutcomeView::Unavailable,
            ],
        ) == (s, state::failed(EIO)),
{
    let form = Form::Attr { ttl: 0, close: None };
    let query = s.query(p, Pending::Describe { st, form });
    lemma_after_two(s, s.getattr(ino), FsOutcomeView::Status(st), FsOutcomeView::Unavailable);
    lemma_after_one(s, query, FsOutcomeView::Unavailable);
    lemma_read_to_the_snippets(s, ino, fh, offset, size, p, st, chunks, FsOutcomeView::Unavailable);
}

/// A file that is not intercepted is reported with its own size, and a read gives what
/// the kernel read.
pub proof fn law_other_files_pass_through(
    s: FsState,
    ino: u64,
    fh: u64,
    offset: u64,
    size: u32,
    p: Seq<u8>,
    st: Stat,
    data: Seq<u8>,
)
    requires
        s.inodes.path_of(ino) == Some(p),
        s.files.contains_key(fh),
        !s.intercepts(p),
    ensures
        after(s, s.getattr(ino), seq![FsOutcomeView::Status(st)]) == (
            s,
            state::replied(
                Reply::Attr { ttl: 1, attr: attr::attr_of(st, st.st_size as u64) },
            ),
        ),
        s.read(ino, fh, offset, size)->call == (FsCallView::Pread {
            fd: s.files[fh],
            len: size as u64,
            offset: offset as i64,
        }),
        after(s, s.read(ino, fh, offset, size), seq![FsOutcomeView::Data(data)]) == (
            s,
            state::replied(Reply::Data(data)),
        ),
{
    lemma_after_one(s, s.getattr(ino), FsOutcomeView::Status(st));
    lemma_after_one(s, s.read(ino, fh, offset, size), FsOutcomeView::Data(data));
}

/// Two reads that follow each other give what one read of both sizes gives.
pub proof fn law_consecutive_reads_join(full: Seq<u8>, offset: u64, first: u32, second: u32)
    requires
        offset + first <= u64::MAX,
        first + second <= u32::MAX,
    ensures
        state::window(full, offset, first) + state::window(
            full,
            (offset + first) as u64,
            second,
        ) == state::window(full, offset, (first + second) as u32),
{
    assert(state::window(full, offset, first) + state::window(
        full,
        (offset + first) as u64,
        second,
    ) =~= state::window(full, offset, (first + second) as u32));
}

/// A read that is large enough gives everything; one at the end gives nothing.
pub proof fn law_read_to_the_end(full: Seq<u8>, offset: u64, size: u32)
    ensures
        full.len() <= size ==> state::window(full, 0, size) == full,
        full.len() <= offset ==> state::window(full, offset, size) == Seq::<u8>::empty(),
        state::window(full, offset, size).len() <= size,
{
    if full.len() <= size {
        assert(state::window(full, 0, size) =~= full);
    }
    if full.len() <= offset {
        assert(state::window(full, offset, size) =~= Seq::<u8>::empty());
    }
}

/// A request to the filesystem.
pub enum Request {
    Lookup { parent: u64, name: Seq<u8> },
    GetAttr { ino: u64 },
    OpenDir { ino: u64 },
    ReadDir { ino: u64, fh: u64, offset: u64 },
    ReleaseDir { fh: u64 },
    Open { ino: u64, flags: i32 },
    Read { ino: u64, fh: u64, offset: u64, size: u32 },
    Release { fh: u64 },
    Access { ino: u64, mask: i32 },
    Readlink { ino: u64 },
    StatFs,
    Write { fh: u64, offset: u64, data: Seq<u8> },
    SetAttr { ino: u64, change: AttrChange, handle: Option<u64> },
    Create { parent: u64, name: Seq<u8>, mode: u32, flags: i32 },
    Unlink { parent: u64, name: Seq<u8> },
    Rmdir { parent: u64, name: Seq<u8> },
    Mkdir { parent: u64, name: Seq<u8>, mode: u32 },
    Rename { parent: u64, name: Seq<u8>, newparent: u64, newname: Seq<u8>, flags: u32 },
    Flush,
    Fsync { fh: u64, datasync: bool },
    Symlink { parent: u64, link_name: Seq<u8>, target: Seq<u8> },
    Link { ino: u64, newparent: u64, newname: Seq<u8> },
}

/// The state and the first step of a request.
pub open spec fn started(s: FsState, request: Request) -> (FsState, FsStepView) {
    match request {
        Request::Lookup { parent, name } => (s, s.lookup(parent, name)),
        Request::GetAttr { ino } => (s, s.getattr(ino)),
        Request::OpenDir { ino } => (s, s.opendir(ino)),
        Request::ReadDir { ino, fh, offset } => (s, s.readdir(ino, fh, offset)),
        Request::ReleaseDir { fh } => s.releasedir(fh),
        Request::Open { ino, flags } => (s, s.open(ino, flags)),
        Request::Read { ino, fh, offset, size } => (s, s.read(ino, fh, offset, size)),
        Request::Release { fh } => s.release(fh),
        Request::Access { ino, mask } => (s, s.access(ino, mask)),
        Request::Readlink { ino } => (s, s.readlink(ino)),
        Request::StatFs => (s, s.statfs()),
        Request::Write { fh, offset, data } => (s, s.write(fh, offset, data)),
        Request::SetAttr { ino, change, handle } => (s, s.setattr(ino, change, handle)),
        Request::Create { parent, name, mode, flags } => (s, s.create(parent, name, mode, flags)),
        Request::Unlink { parent, name } => (s, s.remove(parent, name, false)),
        Request::Rmdir { parent, name } => (s, s.remove(parent, name, true)),
        Request::Mkdir { parent, name, mode } => (s, s.mkdir(parent, name, mode)),
        Request::Rename { parent, name, newparent, newname, flags } => (
            s,
            s.rename(parent, name, newparent, newname, flags),
        ),
        Request::Flush => (s, state::replied(Reply::Empty)),
        Request::Fsync { fh, datasync } => (s, s.fsync(fh, datasync)),
        Request::Symlink { parent, link_name, target } => (
            s,
            s.symlink(parent, link_name, target),
        ),
        Request::Link { ino, newparent, newname } => (s, s.link(ino, newparent, newname)),
    }
}

/// Whether a request names an inode number that is not in the table.
pub open spec fn names_unknown_inode(s: FsState, request: Request) -> bool {
    match request {
        Request::Lookup { parent, .. } => s.inodes.path_of(parent) is None,
        Request::GetAttr { ino } => s.inodes.path_of(ino) is None,
        Request::OpenDir { ino } => s.inodes.path_of(ino) is None,
        Request::ReadDir { ino, .. } => s.inodes.path_of(ino) is None,
        Request::Open { ino, .. } => s.inodes.path_of(ino) is None,
        Request::Read { ino, .. } => s.inodes.path_of(ino) is None,
        Request::Access { ino, .. } => s.inodes.path_of(ino) is None,
        Request::Readlink { ino } => s.inodes.path_of(ino) is None,
        Request::SetAttr { ino, .. } => s.inodes.path_of(ino) is None,
        Request::Create { parent, .. } => s.inodes.path_of(parent) is None,
        Request::Unlink { parent, .. } => s.inodes.path_of(parent) is None,
        Request::Rmdir { parent, .. } => s.inodes.path_of(parent) is None,
        Request::Mkdir { parent, .. } => s.inodes.path_of(parent) is None,
        Request::Rename { parent, newparent, .. } => {
            s.inodes.path_of(parent) is None || s.inodes.path_of(newparent) is None
        },
        Request::Symlink { parent, .. } => s.inodes.path_of(parent) is None,
        Request::Link { ino, newparent, .. } => {
            s.inodes.path_of(ino) is None || s.inodes.path_of(newparent) is None
        },
        _ => false,
    }
}

/// A request that names an unknown inode number is refused at once, and nothing changes.
pub proof fn law_unknown_inode_is_refused(s: FsState, request: Request)
    requires
        names_unknown_inode(s, request),
    ensures
        started(s, request) == (s, state::failed(ENOENT)),
{
}

/// Whether a request names a handle that is not open.
pub open spec fn names_unknown_handle(s: FsState, request: Request) -> bool {
    match request {
        Request::ReadDir { fh, .. } => !s.dirs.contains_key(fh),
        Request::Read { fh, .. } => !s.files.contains_key(fh),
        Request::Write { fh, .. } => !s.files.contains_key(fh),
        Request::Fsync { fh, .. } => !s.files.contains_key(fh),
        Request::SetAttr { handle: Some(fh), .. } => !s.files.contains_key(fh),
        _ => false,
    }
}

/// A request that names a handle that is not open is refused at once, and nothing changes.
pub proof fn law_unknown_handle_is_refused(s: FsState, request: Request)
    requires
        names_unknown_handle(s, request),
        !names_unknown_inode(s, request),
    ensures
        started(s, request) == (s, state::failed(EBADF)),
{
}

/// Whether a request goes on when the call that it waits for fails.
pub open spec fn provides_for_failure(pending: FsPendingView) -> bool {
    match pending {
        Pending::ReadContent { .. } => true,
        Pending::SetAttrOpen { change, fallback, .. } => !fallback || change.size is None,
        _ => false,
    }
}

/// Whether a request ends with this error.
pub open spec fn fails_with(step: FsStepView, errno: i32) -> bool {
    match step {
        Step::Finish { reply, .. } => reply == Reply::<Seq<u8>, Seq<DirItem<Seq<u8>>>>::Failure(
            errno,
        ),
        Step::Call { .. } => false,
    }
}

/// A call that fails changes nothing. Its error number is the reply, but for the calls
/// whose failure is provided for: a read of an intercepted file, the first try to open a
/// file whose attributes are to be changed, and the second where no new size is among them.
pub proof fn law_failed_call_changes_nothing(s: FsState, pending: FsPendingView, errno: i32)
    requires
        protocol::accepts(pending, Outcome::Failure(errno)),
    ensures
        s.resumed(pending, Outcome::Failure(errno)).0 == s,
        !provides_for_failure(pending) ==> fails_with(
            s.resumed(pending, Outcome::Failure(errno)).1,
            errno,
        ),
{
}

/// The entries of a listing are numbered, so that listing can go on behind any of them:
/// from the offset of an entry on come exactly the entries behind it.
pub proof fn law_listing_goes_on_behind_an_entry(
    entries: Seq<Option<RawEntry<Seq<u8>>>>,
    i: int,
)
    requires
        entries.len() <= u64::MAX,
        0 <= i < state::listing(entries).len(),
    ensures
        state::listing(entries)[i].next == i + 1,
        state::from_offset(state::listing(entries), state::listing(entries)[i].next)
            == state::listing(entries).skip(i + 1),
        state::from_offset(state::listing(entries), 0) == state::listing(entries),
{
    lemma_listing_is_numbered(entries);
    let l = state::listing(entries);
    assert(l[i].next == i + 1);
    assert(l.skip(0) =~= l);
    if i + 1 == l.len() {
        assert(l.skip(i + 1) =~= Seq::empty());
    }
}

proof fn lemma_listing_is_numbered(entries: Seq<Option<RawEntry<Seq<u8>>>>)
    requires
        entries.len() <= u64::MAX,
    ensures
        state::listing(entries).len() <= entries.len(),
        forall|i: int|
            0 <= i < state::listing(entries).len() ==> (#[trigger] state::listing(entries)[i]).next
                == i + 1,
    decreases entries.len(),
{
    if entries.len() > 0 {
        lemma_listing_is_numbered(entries.drop_last());
    }
}

/// Every entry that is listed is known by its path afterwards.
pub proof fn law_listed_entries_are_known(
    s: FsState,
    parent: Seq<u8>,
    offset: u64,
    entries: Seq<Option<RawEntry<Seq<u8>>>>,
    i: int,
)
    requires
        0 <= i < entries.len(),
        state::is_listed(entries[i]),
    ensures
        s.resumed(
            Pending::ReadDir { parent, offset },
            Outcome::Entries(entries),
        ).0.inodes.ino_of(state::child_of(parent, entries[i].unwrap().name)) is Some,
{
    lemma_listed_is_known(s, parent, entries, i);
}

proof fn lemma_listed_is_known(
    s: FsState,
    parent: Seq<u8>,
    entries: Seq<Option<RawEntry<Seq<u8>>>>,
    i: int,
)
    requires
        0 <= i < entries.len(),
        state::is_listed(entries[i]),
    ensures
        state::inodes_after_listing(s.inodes, parent, entries).ino_of(
            state::child_of(parent, entries[i].unwrap().name),
        ) is Some,
    decreases entries.len(),
{
    if i < entries.len() - 1 {
        lemma_listed_is_known(s, parent, entries.drop_last(), i);
    }
}

/// The calls that a change of attributes takes.
pub open spec fn planned_changes(change: AttrChange, fd: i32) -> Seq<FsCallView> {
    (match change.mode {
        Some(mode) => seq![FsCallView::Fchmod { fd, mode }],
        None => Seq::empty(),
    }) + (match change.owner {
        Some((uid, gid)) => seq![FsCallView::Fchown { fd, uid, gid }],
        None => Seq::empty(),
    }) + (match change.size {
        Some(size) => seq![FsCallView::Ftruncate { fd, size }],
        None => Seq::empty(),
    }) + (match change.times {
        Some((atime, mtime)) => seq![FsCallView::Futimens { fd, atime, mtime }],
        None => Seq::empty(),
    })
}

/// The calls that a change of attributes takes where the file cannot be opened.
pub open spec fn planned_path_changes(change: AttrChange, dir: i32, path: Seq<u8>) -> Seq<
    FsCallView,
> {
    (match change.mode {
        Some(mode) => seq![FsCallView::FchmodAt { dir, path, mode }],
        None => Seq::empty(),
    }) + (match change.owner {
        Some((uid, gid)) => seq![FsCallView::FchownAt { dir, path, uid, gid }],
        None => Seq::empty(),
    }) + (match change.times {
        Some((atime, mtime)) => seq![FsCallView::UtimensAt { dir, path, atime, mtime }],
        None => Seq::empty(),
    })
}

/// The number of changes that are planned is that of the changes that were asked for. Each of
/// them stands behind those that come first, with the values that were asked for; through a
/// descriptor and by the path alike.
pub proof fn law_planned_changes_are_those_asked_for(
    change: AttrChange,
    fd: i32,
    dir: i32,
    path: Seq<u8>,
)
    ensures
        ({
            let plan = planned_changes(change, fd);
            let owner_at = if change.mode is Some {
                1int
            } else {
                0
            };
            let size_at = owner_at + if change.owner is Some {
                1int
            } else {
                0
            };
            let times_at = size_at + if change.size is Some {
                1int
            } else {
                0
            };
            &&& plan.len() == times_at + if change.times is Some {
                1int
            } else {
                0
            }
            &&& change.mode matches Some(mode) ==> plan[0] == (FsCallView::Fchmod { fd, mode })
            &&& change.owner matches Some((uid, gid)) ==> plan[owner_at] == (FsCallView::Fchown {
                fd,
                uid,
                gid,
            })
            &&& change.size matches Some(size) ==> plan[size_at] == (FsCallView::Ftruncate {
                fd,
                size,
            })
            &&& change.times matches Some((atime, mtime)) ==> plan[times_at] == (
            FsCallView::Futimens { fd, atime, mtime })
            &&& change.size is None ==> planned_path_changes(change, dir, path).len() == plan.len()
            &&& change.mode matches Some(mode) ==> planned_path_changes(change, dir, path)[0] == (
            FsCallView::FchmodAt { dir, path, mode })
            &&& change.owner matches Some((uid, gid)) ==> planned_path_changes(
                change,
                dir,
                path,
            )[owner_at] == (FsCallView::FchownAt { dir, path, uid, gid })
            &&& change.times matches Some((atime, mtime)) ==> planned_path_changes(
                change,
                dir,
                path,
            )[size_at] == (FsCallView::UtimensAt { dir, path, atime, mtime })
        }),
{
}

/// The calls that are made when each change of attributes succeeds, up to `most` of them.
pub open spec fn calls_on_success(s: FsState, step: FsStepView, most: nat) -> Seq<FsCallView>
    decreases most,
{
    match step {
        Step::Call { call, next } => if most == 0 {
            Seq::empty()
        } else if next is SetAttrChange || next is SetAttrPath {
            seq![call] + calls_on_success(
                s,
                s.resumed(next, Outcome::Success).1,
                (most - 1) as nat,
            )
        } else {
            seq![call]
        },
        Step::Finish { .. } => Seq::empty(),
    }
}

/// A change of attributes makes exactly the changes that were asked for, in the order mode,
/// owner, size, times, and then asks for the status of the file. They are made through the
/// handle where there is one, else through a descriptor that the file is opened under, and
/// by its path where it cannot be opened and no new size is among them.
pub proof fn law_attributes_change_in_order(
    s: FsState,
    ino: u64,
    p: Seq<u8>,
    change: AttrChange,
    fh: u64,
    fd: i32,
    first: i32,
    second: i32,
)
    requires
        s.inodes.path_of(ino) == Some(p),
    ensures
        s.files.contains_key(fh) ==> calls_on_success(s, s.setattr(ino, change, Some(fh)), 5)
            == planned_changes(change, s.files[fh]).push(
            FsCallView::StatAt { dir: s.root, path: path::c_path_of(p) },
        ),
        calls_on_success(
            s,
            after(s, s.setattr(ino, change, None), seq![FsOutcomeView::Descriptor(fd)]).1,
            5,
        ) == planned_changes(change, fd).push(
            FsCallView::StatAt { dir: s.root, path: path::c_path_of(p) },
        ),
        calls_on_success(
            s,
            after(
                s,
                s.setattr(ino, change, None),
                seq![FsOutcomeView::Failure(first), FsOutcomeView::Descriptor(fd)],
            ).1,
            5,
        ) == planned_changes(change, fd).push(
            FsCallView::StatAt { dir: s.root, path: path::c_path_of(p) },
        ),
        change.size is None ==> calls_on_success(
            s,
            after(
                s,
                s.setattr(ino, change, None),
                seq![FsOutcomeView::Failure(first), FsOutcomeView::Failure(second)],
            ).1,
            5,
        ) == planned_path_changes(change, s.root, path::c_path_of(p)).push(
            FsCallView::StatAt { dir: s.root, path: path::c_path_of(p) },
        ),
        change.size is Some ==> after(
            s,
            s.setattr(ino, change, None),
            seq![FsOutcomeView::Failure(first), FsOutcomeView::Failure(second)],
        ) == (s, state::failed(second)),
{
    let start = s.setattr(ino, change, None);
    let again = s.open_to_change(p, change, true);
    let failure = FsOutcomeView::Failure(first);
    let opened = FsOutcomeView::Descriptor(fd);
    lemma_changes(s, p, change, s.files[fh], None, 5);
    lemma_changes(s, p, change, fd, Some(fd), 5);
    lemma_path_changes(s, p, change, 5);
    lemma_after_one(s, start, opened);
    lemma_after_two(s, start, failure, opened);
    lemma_after_one(s, again, opened);
    lemma_after_two(s, start, failure, FsOutcomeView::Failure(second));
    lemma_after_one(s, again, FsOutcomeView::Failure(second));
}

proof fn lemma_path_changes(s: FsState, p: Seq<u8>, change: AttrChange, most: nat)
    requires
        most > planned_path_changes(change, s.root, path::c_path_of(p)).len(),
    ensures
        calls_on_success(s, s.change_path_on(p, change), most) == planned_path_changes(
            change,
            s.root,
            path::c_path_of(p),
        ).push(FsCallView::StatAt { dir: s.root, path: path::c_path_of(p) }),
    decreases most,
{
    let step = s.change_path_on(p, change);
    let c_path = path::c_path_of(p);
    let plan = planned_path_changes(change, s.root, c_path);
    if let Step::Call { call, next } = step {
        if let Pending::SetAttrPath { change: rest, .. } = next {
            let tail = planned_path_changes(rest, s.root, c_path);
            assert(plan =~= seq![call] + tail);
            lemma_path_changes(s, p, rest, (most - 1) as nat);
            assert(s.resumed(next, Outcome::Success).1 == s.change_path_on(p, rest));
            assert(calls_on_success(s, step, most) =~= plan.push(
                FsCallView::StatAt { dir: s.root, path: c_path },
            ));
        } else {
            assert(plan =~= Seq::empty());
            assert(seq![call] =~= plan.push(FsCallView::StatAt { dir: s.root, path: c_path }));
        }
    }
}

/// The calls that a request makes when they have these outcomes.
pub open spec fn calls_made(s: FsState, step: FsStepView, outcomes: Seq<FsOutcomeView>) -> Seq<
    FsCallView,
>
    decreases outcomes.len(),
{
    if outcomes.len() == 0 {
        Seq::empty()
    } else {
        match step {
            Step::Call { call, next } => {
                let (s2, step2) = s.resumed(next, outcomes[0]);
                seq![call] + calls_made(s2, step2, outcomes.drop_first())
            },
            Step::Finish { .. } => Seq::empty(),
        }
    }
}

/// A new mode is passed through to a file of any kind, a directory among them, also where
/// the file can be opened neither for reading nor for writing: the mode is changed by the
/// path, and the new attributes are reported.
pub proof fn law_new_mode_is_passed_through(
    s: FsState,
    ino: u64,
    p: Seq<u8>,
    mode: u32,
    first: i32,
    second: i32,
    st: Stat,
)
    requires
        s.inodes.path_of(ino) == Some(p),
    ensures
        ({
            let start = s.setattr(
                ino,
                state::requested_change(Some(mode), None, None, None, None, None),
                None,
            );
            let outcomes = seq![
                FsOutcomeView::Failure(first),
                FsOutcomeView::Failure(second),
                FsOutcomeView::Success,
                FsOutcomeView::Status(st),
            ];
            let path = path::c_path_of(p);
            let form = Form::Attr { ttl: s.ttl_for(p), close: None };
            &&& calls_made(s, start, outcomes) == seq![
                FsCallView::OpenNoFollowAt { dir: s.root, path, flags: O_RDWR },
                FsCallView::OpenNoFollowAt { dir: s.root, path, flags: O_WRONLY },
                FsCallView::FchmodAt { dir: s.root, path, mode },
                FsCallView::StatAt { dir: s.root, path },
            ]
            &&& after(s, start, outcomes) == s.described(p, st, form)
            &&& attr::file_type_of(st.st_mode) != FileType::RegularFile || !s.intercepts(p)
                ==> after(s, start, outcomes) == (
                s,
                state::replied(
                    Reply::Attr {
                        ttl: s.ttl_for(p),
                        attr: attr::attr_of(st, st.st_size as u64),
                    },
                ),
            )
        }),
{
    reveal_with_fuel(after, 5);
    reveal_with_fuel(calls_made, 5);
    let change = state::requested_change(Some(mode), None, None, None, None, None);
    let start = s.setattr(ino, change, None);
    let o4 = seq![FsOutcomeView::Status(st)];
    let o3 = seq![FsOutcomeView::Success, FsOutcomeView::Status(st)];
    let o2 = seq![
        FsOutcomeView::Failure(second),
        FsOutcomeView::Success,
        FsOutcomeView::Status(st),
    ];
    let o1 = seq![
        FsOutcomeView::Failure(first),
        FsOutcomeView::Failure(second),
        FsOutcomeView::Success,
        FsOutcomeView::Status(st),
    ];
    assert(o1.drop_first() =~= o2);
    assert(o2.drop_first() =~= o3);
    assert(o3.drop_first() =~= o4);
    assert(o4.drop_first() =~= Seq::empty());
    let again = s.open_to_change(p, change, true);
    let by_path = s.change_path_on(p, change);
    let changed = s.change_path_on(p, AttrChange { mode: None, ..change });
    let form = Form::Attr { ttl: s.ttl_for(p), close: None };
    lemma_after_one(s, changed, FsOutcomeView::Status(st));
    assert(after(s, changed, o4) == s.described(p, st, form));
    assert(after(s, by_path, o3) == after(s, changed, o4));
    assert(after(s, again, o2) == after(s, by_path, o3));
    assert(after(s, start, o1) == after(s, again, o2));
}

proof fn lemma_changes(
    s: FsState,
    p: Seq<u8>,
    change: AttrChange,
    fd: i32,
    close: Option<i32>,
    most: nat,
)
    requires
        most > planned_changes(change, fd).len(),
    ensures
        calls_on_success(s, s.change_on(p, change, fd, close), most) == planned_changes(
            change,
            fd,
        ).push(FsCallView::StatAt { dir: s.root, path: path::c_path_of(p) }),
    decreases most,
{
    let step = s.change_on(p, change, fd, close);
    let plan = planned_changes(change, fd);
    if let Step::Call { call, next } = step {
        if let Pending::SetAttrChange { change: rest, .. } = next {
            let tail = planned_changes(rest, fd);
            assert(plan =~= seq![call] + tail);
            lemma_changes(s, p, rest, fd, close, (most - 1) as nat);
            assert(s.resumed(next, Outcome::Success).1 == s.change_on(p, rest, fd, close));
            assert(calls_on_success(s, step, most) =~= plan.push(
                FsCallView::StatAt { dir: s.root, path: path::c_path_of(p) },
            ));
        } else {
            assert(plan =~= Seq::empty());
            assert(seq![call] =~= plan.push(
                FsCallView::StatAt { dir: s.root, path: path::c_path_of(p) },
            ));
        }
    }
}

/// Releasing a file that was just opened closes the descriptor under which it was opened
/// and leaves the other files as they were. The same holds of directories.
pub proof fn law_release_undoes_open(s: FsState, ino: u64, flags: i32, fd: i32)
    requires
        s.inodes.path_of(ino) is Some,
        !s.files.contains_key(s.next_fh),
        !s.dirs.contains_key(s.next_fh),
    ensures
        ({
            let (t, step) = after(s, s.open(ino, flags), seq![FsOutcomeView::Descriptor(fd)]);
            let fh = s.next_fh;
            &&& step == state::replied(Reply::Opened { fh })
            &&& t.release(fh).0 == (FsState { next_fh: state::handle_after(fh), ..s })
            &&& t.release(fh).1 == (FsStepView::Finish { reply: Reply::Empty, close: Some(fd) })
        }),
        ({
            let (t, step) = after(s, s.opendir(ino), seq![FsOutcomeView::Descriptor(fd)]);
            let fh = s.next_fh;
            &&& step == state::replied(Reply::Opened { fh })
            &&& t.releasedir(fh).0 == (FsState { next_fh: state::handle_after(fh), ..s })
            &&& t.releasedir(fh).1 == (FsStepView::Finish { reply: Reply::Empty, close: Some(fd) })
        }),
{
    let fh = s.next_fh;
    lemma_after_one(s, s.open(ino, flags), FsOutcomeView::Descriptor(fd));
    lemma_after_one(s, s.opendir(ino), FsOutcomeView::Descriptor(fd));
    assert(s.files.insert(fh, fd).remove(fh) =~= s.files);
    assert(s.dirs.insert(fh, fd).remove(fh) =~= s.dirs);
}

/// The attributes of an entry that was just seen are reported without a further change to
/// the inode table, whether its snippets have to be asked for or not.
proof fn lemma_described_keeps_the_table(
    s: FsState,
    p: Seq<u8>,
    st: Stat,
    form: Form,
    answer: FsOutcomeView,
)
    ensures
        ({
            let (t, step) = s.described(p, st, form);
            after(t, step, seq![answer]).0.inodes == s.inodes
        }),
{
    reveal_with_fuel(after, 2);
}

/// Whether a request for the attributes of this inode number is about this path.
pub open spec fn leads_to(s: FsState, ino: u64, p: Seq<u8>) -> bool {
    s.getattr(ino) == s.stat_path(p, Pending::GetAttr { path: p })
}

/// An entry that is looked up for the first time is from then on found behind its inode
/// number, whatever the database answers where it is asked.
pub proof fn law_looked_up_entry_is_found(
    s: FsState,
    parent: u64,
    name: Seq<u8>,
    p: Seq<u8>,
    st: Stat,
    answer: FsOutcomeView,
)
    requires
        s.inodes.path_of(parent) == Some(p),
        s.inodes.ino_of(path::joined(p, name)) is None,
    ensures
        leads_to(
            after(s, s.lookup(parent, name), seq![FsOutcomeView::Status(st), answer]).0,
            st.st_ino,
            path::joined(p, name),
        ),
{
    let child = path::joined(p, name);
    let form = Form::Entry { ttl: s.ttl_for(child) };
    lemma_after_two(s, s.lookup(parent, name), FsOutcomeView::Status(st), answer);
    lemma_described_keeps_the_table(s.with_inode(child, st.st_ino), child, st, form, answer);
    inode_map::law_inserted_path_is_found(s.inodes, child, st.st_ino);
}

/// The path of the entry that a request makes: a directory, a symbolic link or a hard link.
pub open spec fn made_path(s: FsState, request: Request) -> Option<Seq<u8>> {
    match request {
        Request::Mkdir { parent, name, .. } => match s.inodes.path_of(parent) {
            Some(p) => Some(path::joined(p, name)),
            None => None,
        },
        Request::Symlink { parent, link_name, .. } => match s.inodes.path_of(parent) {
            Some(p) => Some(path::joined(p, link_name)),
            None => None,
        },
        Request::Link { ino, newparent, newname } => match s.inodes.path_of(newparent) {
            Some(p) => if s.inodes.path_of(ino) is Some {
                Some(path::joined(p, newname))
            } else {
                None
            },
            None => None,
        },
        _ => None,
    }
}

/// A directory or a link that is made is from then on found behind its inode number.
pub proof fn law_made_entry_is_found(
    s: FsState,
    request: Request,
    child: Seq<u8>,
    st: Stat,
    answer: FsOutcomeView,
)
    requires
        made_path(s, request) == Some(child),
        s.inodes.ino_of(child) is None,
    ensures
        leads_to(
            after(
                s,
                started(s, request).1,
                seq![FsOutcomeView::Success, FsOutcomeView::Status(st), answer],
            ).0,
            st.st_ino,
            child,
        ),
{
    let outcomes = seq![FsOutcomeView::Success, FsOutcomeView::Status(st), answer];
    let rest = seq![FsOutcomeView::Status(st), answer];
    assert(outcomes =~= seq![FsOutcomeView::Success] + rest);
    let start = started(s, request).1;
    lemma_after_concat(s, start, seq![FsOutcomeView::Success], rest);
    lemma_after_one(s, start, FsOutcomeView::Success);
    let status = s.stat_path(child, Pending::MakeStatus { path: child });
    lemma_after_two(s, status, FsOutcomeView::Status(st), answer);
    let form = Form::Entry { ttl: state::TTL_NORMAL };
    lemma_described_keeps_the_table(s.with_inode(child, st.st_ino), child, st, form, answer);
    inode_map::law_inserted_path_is_found(s.inodes, child, st.st_ino);
}

/// A file that was created is open under the handle that is handed out, whether its
/// attributes could be reported at once or its snippets had to be asked for, and is found
/// behind its inode number.
pub proof fn law_created_file_is_open(
    s: FsState,
    parent: u64,
    name: Seq<u8>,
    mode: u32,
    flags: i32,
    p: Seq<u8>,
    fd: i32,
    st: Stat,
    answer: FsOutcomeView,
)
    requires
        s.inodes.path_of(parent) == Some(p),
        s.inodes.ino_of(path::joined(p, name)) is None,
    ensures
        ({
            let (t, step) = after(
                s,
                s.create(parent, name, mode, flags),
                seq![FsOutcomeView::Descriptor(fd), FsOutcomeView::Status(st), answer],
            );
            &&& t.files == s.files.insert(s.next_fh, fd)
            &&& leads_to(t, st.st_ino, path::joined(p, name))
            &&& step matches Step::Finish { reply: Reply::Created { fh, .. }, .. }
            &&& fh == s.next_fh
        }),
{
    let child = path::joined(p, name);
    let outcomes = seq![FsOutcomeView::Descriptor(fd), FsOutcomeView::Status(st), answer];
    let rest = seq![FsOutcomeView::Status(st), answer];
    assert(outcomes =~= seq![FsOutcomeView::Descriptor(fd)] + rest);
    let start = s.create(parent, name, mode, flags);
    lemma_after_concat(s, start, seq![FsOutcomeView::Descriptor(fd)], rest);
    lemma_after_one(s, start, FsOutcomeView::Descriptor(fd));
    let status = FsStepView::Call {
        call: Call::Fstat { fd },
        next: Pending::CreateStatus { child, fd },
    };
    lemma_after_two(s, status, FsOutcomeView::Status(st), answer);
    reveal_with_fuel(after, 2);
    inode_map::law_inserted_path_is_found(s.inodes, child, st.st_ino);
}

/// Once an entry is deleted, requests that name its inode number are refused.
pub proof fn law_deleted_entry_is_unknown(
    s: FsState,
    parent: u64,
    name: Seq<u8>,
    directory: bool,
    p: Seq<u8>,
    ino: u64,
)
    requires
        s.inodes.path_of(parent) == Some(p),
        s.inodes.ino_of(path::joined(p, name)) == Some(ino),
    ensures
        ({
            let (t, step) = after(
                s,
                s.remove(parent, name, directory),
                seq![FsOutcomeView::Success],
            );
            &&& step == state::replied(Reply::Empty)
            &&& t.getattr(ino) == state::failed(ENOENT)
            &&& t.inodes.ino_of(path::joined(p, name)) is None
        }),
{
    lemma_after_one(s, s.remove(parent, name, directory), FsOutcomeView::Success);
}

/// Once an entry is renamed, its inode number leads to its new path.
pub proof fn law_renamed_entry_is_found(
    s: FsState,
    parent: u64,
    name: Seq<u8>,
    newparent: u64,
    newname: Seq<u8>,
    flags: u32,
    p: Seq<u8>,
    q: Seq<u8>,
    ino: u64,
)
    requires
        s.inodes.path_of(parent) == Some(p),
        s.inodes.path_of(newparent) == Some(q),
        s.inodes.ino_of(path::joined(p, name)) == Some(ino),
        !state::exchanges(flags),
    ensures
        ({
            let (t, step) = after(
                s,
                s.rename(parent, name, newparent, newname, flags),
                seq![FsOutcomeView::Success],
            );
            &&& step == state::replied(Reply::Empty)
            &&& leads_to(t, ino, path::joined(q, newname))
        }),
{
    lemma_after_one(s, s.rename(parent, name, newparent, newname, flags), FsOutcomeView::Success);
}

/// Once two entries are exchanged, the inode number of each leads to the path of the other.
pub proof fn law_exchanged_entries_are_found(
    s: FsState,
    parent: u64,
    name: Seq<u8>,
    newparent: u64,
    newname: Seq<u8>,
    flags: u32,
    p: Seq<u8>,
    q: Seq<u8>,
    ino: u64,
    other: u64,
)
    requires
        s.inodes.path_of(parent) == Some(p),
        s.inodes.path_of(newparent) == Some(q),
        s.inodes.ino_of(path::joined(p, name)) == Some(ino),
        s.inodes.ino_of(path::joined(q, newname)) == Some(other),
        ino != other,
        state::exchanges(flags),
    ensures
        ({
            let (t, step) = after(
                s,
                s.rename(parent, name, newparent, newname, flags),
                seq![FsOutcomeView::Success],
            );
            &&& step == state::replied(Reply::Empty)
            &&& leads_to(t, ino, path::joined(q, newname))
            &&& leads_to(t, other, path::joined(p, name))
        }),
{
    lemma_after_one(s, s.rename(parent, name, newparent, newname, flags), FsOutcomeView::Success);
}

} // verus!
