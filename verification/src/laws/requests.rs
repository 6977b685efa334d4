//! What each request asks the kernel for, and what it answers, from its first call to its
//! reply.

use vstd::prelude::*;

use crate::attr;
use crate::attr::{FileAttr, FileType, Stat, StatVfs};
use crate::laws;
use crate::path;
use crate::protocol::{
    AttrChange, Form, FsCallView, FsOutcomeView, FsReplyView, FsStepView, Pending, RawEntry, Reply,
    Step,
};
use crate::provider;
use crate::state;
use crate::state::FsState;

verus! {

/// Whether snippets bear on what is told of a file: it is a regular file and intercepted.
pub open spec fn has_snippets(s: FsState, p: Seq<u8>, st: Stat) -> bool {
    attr::file_type_of(st.st_mode) == FileType::RegularFile && s.intercepts(p)
}

/// The query that it takes to tell the attributes of a file, where it takes one.
pub open spec fn snippet_calls(s: FsState, p: Seq<u8>, st: Stat) -> Seq<FsCallView> {
    if has_snippets(s, p, st) {
        seq![FsCallView::Query { db: s.db, filename: provider::snippet_name(p) }]
    } else {
        Seq::empty()
    }
}

/// The attributes that are told of a file with this status, given what the database answers
/// where it is asked.
pub open spec fn told(s: FsState, p: Seq<u8>, st: Stat, answer: FsOutcomeView) -> FileAttr {
    let text = match answer {
        FsOutcomeView::Rows(rows) => provider::snippet_text(rows),
        _ => Seq::empty(),
    };
    let own = st.st_size as u64;
    if has_snippets(s, p, st) && text.len() > 0 {
        attr::attr_of(st, (own + 1 + text.len()) as u64)
    } else {
        attr::attr_of(st, own)
    }
}

/// Whether an outcome is an answer of the database, or tells that there is none.
pub open spec fn is_answer(outcome: FsOutcomeView) -> bool {
    outcome is Rows || outcome is Unavailable
}

/// The end of a request with this reply.
pub open spec fn ends(reply: FsReplyView) -> FsStepView {
    FsStepView::Finish { reply, close: None }
}

/// So many changes that succeed.
pub open spec fn successes(n: nat) -> Seq<FsOutcomeView> {
    Seq::new(n, |i: int| FsOutcomeView::Success)
}

proof fn lemma_cons(s: FsState, step: FsStepView, first: FsOutcomeView, rest: Seq<FsOutcomeView>)
    requires
        step is Call,
    ensures
        laws::after(s, step, seq![first] + rest) == laws::after(
            s.resumed(step->next, first).0,
            s.resumed(step->next, first).1,
            rest,
        ),
        laws::calls_made(s, step, seq![first] + rest) == seq![step->call] + laws::calls_made(
            s.resumed(step->next, first).0,
            s.resumed(step->next, first).1,
            rest,
        ),
{
    assert((seq![first] + rest).drop_first() =~= rest);
}

proof fn lemma_one(s: FsState, step: FsStepView, outcome: FsOutcomeView)
    requires
        step is Call,
    ensures
        laws::after(s, step, seq![outcome]) == s.resumed(step->next, outcome),
        laws::calls_made(s, step, seq![outcome]) == seq![step->call],
{
    assert(seq![outcome] + Seq::<FsOutcomeView>::empty() =~= seq![outcome]);
    lemma_cons(s, step, outcome, Seq::empty());
    assert(seq![step->call] + Seq::<FsCallView>::empty() =~= seq![step->call]);
}

proof fn lemma_two(s: FsState, step: FsStepView, first: FsOutcomeView, second: FsOutcomeView)
    requires
        step is Call,
    ensures
        laws::after(s, step, seq![first, second]) == laws::after(
            s.resumed(step->next, first).0,
            s.resumed(step->next, first).1,
            seq![second],
        ),
        laws::calls_made(s, step, seq![first, second]) == seq![step->call] + laws::calls_made(
            s.resumed(step->next, first).0,
            s.resumed(step->next, first).1,
            seq![second],
        ),
{
    assert(seq![first] + seq![second] =~= seq![first, second]);
    lemma_cons(s, step, first, seq![second]);
}

proof fn lemma_three(
    s: FsState,
    step: FsStepView,
    first: FsOutcomeView,
    second: FsOutcomeView,
    third: FsOutcomeView,
)
    requires
        step is Call,
    ensures
        laws::after(s, step, seq![first, second, third]) == laws::after(
            s.resumed(step->next, first).0,
            s.resumed(step->next, first).1,
            seq![second, third],
        ),
        laws::calls_made(s, step, seq![first, second, third]) == seq![step->call] + laws::calls_made(
            s.resumed(step->next, first).0,
            s.resumed(step->next, first).1,
            seq![second, third],
        ),
{
    assert(seq![first] + seq![second, third] =~= seq![first, second, third]);
    lemma_cons(s, step, first, seq![second, third]);
}

proof fn lemma_described(s: FsState, p: Seq<u8>, st: Stat, form: Form, answer: FsOutcomeView)
    requires
        is_answer(answer),
    ensures
        ({
            let (t, step) = s.described(p, st, form);
            &&& laws::after(t, step, seq![answer]) == s.reported(told(s, p, st, answer), form)
            &&& laws::calls_made(t, step, seq![answer]) == snippet_calls(s, p, st)
        }),
{
    let (t, step) = s.described(p, st, form);
    if has_snippets(s, p, st) {
        lemma_one(t, step, answer);
    } else {
        assert(laws::calls_made(t, step, seq![answer]) =~= Seq::<FsCallView>::empty());
    }
}

/// `getattr` asks for the status of the path that the inode number leads to, and tells the
/// attributes that it gives, an error otherwise. Nothing changes.
pub proof fn law_getattr(
    s: FsState,
    ino: u64,
    p: Seq<u8>,
    st: Stat,
    answer: FsOutcomeView,
    errno: i32,
)
    requires
        s.inodes.path_of(ino) == Some(p),
        is_answer(answer),
    ensures
        laws::calls_made(s, s.getattr(ino), seq![FsOutcomeView::Status(st), answer]) == seq![
            FsCallView::StatAt { dir: s.root, path: path::c_path_of(p) },
        ] + snippet_calls(s, p, st),
        laws::after(s, s.getattr(ino), seq![FsOutcomeView::Status(st), answer]) == (
            s,
            ends(Reply::Attr { ttl: s.ttl_for(p), attr: told(s, p, st, answer) }),
        ),
        laws::after(s, s.getattr(ino), seq![FsOutcomeView::Failure(errno)]) == (
            s,
            ends(Reply::Failure(errno)),
        ),
{
    lemma_two(s, s.getattr(ino), FsOutcomeView::Status(st), answer);
    lemma_one(s, s.getattr(ino), FsOutcomeView::Failure(errno));
    lemma_described(s, p, st, Form::Attr { ttl: s.ttl_for(p), close: None }, answer);
}

/// `lookup` asks for the status of the name in the directory that the inode number leads to,
/// tells the attributes that it gives and makes the path known under the number of the
/// status. After an error nothing has changed.
pub proof fn law_lookup(
    s: FsState,
    parent: u64,
    name: Seq<u8>,
    p: Seq<u8>,
    st: Stat,
    answer: FsOutcomeView,
    errno: i32,
)
    requires
        s.inodes.path_of(parent) == Some(p),
        is_answer(answer),
    ensures
        ({
            let child = path::joined(p, name);
            let start = s.lookup(parent, name);
            let outcomes = seq![FsOutcomeView::Status(st), answer];
            &&& laws::calls_made(s, start, outcomes) == seq![
                FsCallView::StatAt { dir: s.root, path: path::c_path_of(child) },
            ] + snippet_calls(s, child, st)
            &&& laws::after(s, start, outcomes) == (
                FsState { inodes: s.inodes.inserted(child, st.st_ino), ..s },
                ends(Reply::Entry { ttl: s.ttl_for(child), attr: told(s, child, st, answer) }),
            )
            &&& laws::after(s, start, seq![FsOutcomeView::Failure(errno)]) == (
                s,
                ends(Reply::Failure(errno)),
            )
        }),
{
    let child = path::joined(p, name);
    let start = s.lookup(parent, name);
    let t = s.with_inode(child, st.st_ino);
    lemma_two(s, start, FsOutcomeView::Status(st), answer);
    lemma_one(s, start, FsOutcomeView::Failure(errno));
    lemma_described(t, child, st, Form::Entry { ttl: s.ttl_for(child) }, answer);
}

/// `opendir` opens the directory that the inode number leads to, and files its descriptor
/// under the next handle, which it tells. One that was filed there before is closed.
pub proof fn law_opendir(s: FsState, ino: u64, p: Seq<u8>, fd: i32, errno: i32)
    requires
        s.inodes.path_of(ino) == Some(p),
    ensures
        ({
            let start = s.opendir(ino);
            let opened = seq![FsOutcomeView::Descriptor(fd)];
            &&& laws::calls_made(s, start, opened) == seq![
                FsCallView::OpenDirAt { dir: s.root, path: path::c_path_of(p) },
            ]
            &&& laws::after(s, start, opened).0 == (FsState {
                dirs: s.dirs.insert(s.next_fh, fd),
                next_fh: state::handle_after(s.next_fh),
                ..s
            })
            &&& !s.dirs.contains_key(s.next_fh) ==> laws::after(s, start, opened).1 == ends(
                Reply::Opened { fh: s.next_fh },
            )
            &&& s.dirs.contains_key(s.next_fh) ==> laws::after(s, start, opened).1 == (
            FsStepView::Finish {
                reply: Reply::Opened { fh: s.next_fh },
                close: Some(s.dirs[s.next_fh]),
            })
            &&& laws::after(s, start, seq![FsOutcomeView::Failure(errno)]) == (
                s,
                ends(Reply::Failure(errno)),
            )
        }),
{
    lemma_one(s, s.opendir(ino), FsOutcomeView::Descriptor(fd));
    lemma_one(s, s.opendir(ino), FsOutcomeView::Failure(errno));
}

/// `open` opens the file that the inode number leads to with the flags that are passed on,
/// and files its descriptor under the next handle, which it tells. One that was filed there
/// before is closed.
pub proof fn law_open(s: FsState, ino: u64, flags: i32, p: Seq<u8>, fd: i32, errno: i32)
    requires
        s.inodes.path_of(ino) == Some(p),
    ensures
        ({
            let start = s.open(ino, flags);
            let opened = seq![FsOutcomeView::Descriptor(fd)];
            &&& laws::calls_made(s, start, opened) == seq![
                FsCallView::OpenAt {
                    dir: s.root,
                    path: path::c_path_of(p),
                    flags: state::passed_flags(flags),
                },
            ]
            &&& laws::after(s, start, opened).0 == (FsState {
                files: s.files.insert(s.next_fh, fd),
                next_fh: state::handle_after(s.next_fh),
                ..s
            })
            &&& !s.files.contains_key(s.next_fh) ==> laws::after(s, start, opened).1 == ends(
                Reply::Opened { fh: s.next_fh },
            )
            &&& s.files.contains_key(s.next_fh) ==> laws::after(s, start, opened).1 == (
            FsStepView::Finish {
                reply: Reply::Opened { fh: s.next_fh },
                close: Some(s.files[s.next_fh]),
            })
            &&& laws::after(s, start, seq![FsOutcomeView::Failure(errno)]) == (
                s,
                ends(Reply::Failure(errno)),
            )
        }),
{
    lemma_one(s, s.open(ino, flags), FsOutcomeView::Descriptor(fd));
    lemma_one(s, s.open(ino, flags), FsOutcomeView::Failure(errno));
}

/// `readdir` reads the directory under its handle, tells its entries from the offset on and
/// takes notice of them all.
pub proof fn law_readdir(
    s: FsState,
    ino: u64,
    fh: u64,
    offset: u64,
    p: Seq<u8>,
    entries: Seq<Option<RawEntry<Seq<u8>>>>,
    errno: i32,
)
    requires
        s.inodes.path_of(ino) == Some(p),
        s.dirs.contains_key(fh),
    ensures
        ({
            let start = s.readdir(ino, fh, offset);
            let read = seq![FsOutcomeView::Entries(entries)];
            &&& laws::calls_made(s, start, read) == seq![FsCallView::ListDir { fd: s.dirs[fh] }]
            &&& laws::after(s, start, read) == (
                FsState { inodes: state::inodes_after_listing(s.inodes, p, entries), ..s },
                ends(Reply::Directory(state::from_offset(state::listing(entries), offset))),
            )
            &&& laws::after(s, start, seq![FsOutcomeView::Failure(errno)]) == (
                s,
                ends(Reply::Failure(errno)),
            )
        }),
{
    lemma_one(s, s.readdir(ino, fh, offset), FsOutcomeView::Entries(entries));
    lemma_one(s, s.readdir(ino, fh, offset), FsOutcomeView::Failure(errno));
}

/// `readdir` of a directory whose entries could all be read tells each of them from the
/// offset on, under its own name, number and type and with its place in the list.
pub proof fn law_readdir_tells_every_entry(
    s: FsState,
    ino: u64,
    fh: u64,
    offset: u64,
    p: Seq<u8>,
    entries: Seq<Option<RawEntry<Seq<u8>>>>,
    i: int,
)
    requires
        s.inodes.path_of(ino) == Some(p),
        s.dirs.contains_key(fh),
        entries.len() <= u64::MAX,
        forall|k: int| 0 <= k < entries.len() ==> state::is_there(#[trigger] entries[k]),
        offset <= i < entries.len(),
    ensures
        ({
            let step = laws::after(
                s,
                s.readdir(ino, fh, offset),
                seq![FsOutcomeView::Entries(entries)],
            ).1;
            let entry = entries[i].unwrap();
            &&& step matches Step::Finish { reply: Reply::Directory(items), close: None }
            &&& items.len() == entries.len() - offset
            &&& items[i - offset].ino == entry.ino
            &&& items[i - offset].name == entry.name
            &&& items[i - offset].next == i + 1
            &&& items[i - offset].kind == entry.kind.unwrap_or(FileType::RegularFile)
        }),
{
    law_readdir(s, ino, fh, offset, p, entries, 0);
    state::law_every_entry_is_listed(entries, i);
    state::law_listing_goes_on_from_an_offset(state::listing(entries), offset, i - offset);
}

/// `release` and `releasedir` close what is open under the handle, and forget the handle. They
/// succeed where nothing is. Nothing else changes.
pub proof fn law_release(s: FsState, fh: u64)
    ensures
        s.release(fh).0 == (FsState { files: s.files.remove(fh), ..s }),
        s.files.contains_key(fh) ==> s.release(fh).1 == (FsStepView::Finish {
            reply: Reply::Empty,
            close: Some(s.files[fh]),
        }),
        !s.files.contains_key(fh) ==> s.release(fh).1 == ends(Reply::Empty),
        s.releasedir(fh).0 == (FsState { dirs: s.dirs.remove(fh), ..s }),
        s.dirs.contains_key(fh) ==> s.releasedir(fh).1 == (FsStepView::Finish {
            reply: Reply::Empty,
            close: Some(s.dirs[fh]),
        }),
        !s.dirs.contains_key(fh) ==> s.releasedir(fh).1 == ends(Reply::Empty),
{
}

/// `read` of a file that is not intercepted asks the kernel for as many bytes at the same
/// offset, and gives what it read.
pub proof fn law_plain_read(
    s: FsState,
    ino: u64,
    fh: u64,
    offset: u64,
    size: u32,
    p: Seq<u8>,
    data: Seq<u8>,
    errno: i32,
)
    requires
        s.inodes.path_of(ino) == Some(p),
        s.files.contains_key(fh),
        !s.intercepts(p),
    ensures
        ({
            let start = s.read(ino, fh, offset, size);
            &&& laws::calls_made(s, start, seq![FsOutcomeView::Data(data)]) == seq![
                FsCallView::Pread { fd: s.files[fh], len: size as u64, offset: offset as i64 },
            ]
            &&& laws::after(s, start, seq![FsOutcomeView::Data(data)]) == (s, ends(Reply::Data(data)))
            &&& laws::after(s, start, seq![FsOutcomeView::Failure(errno)]) == (
                s,
                ends(Reply::Failure(errno)),
            )
        }),
{
    lemma_one(s, s.read(ino, fh, offset, size), FsOutcomeView::Data(data));
    lemma_one(s, s.read(ino, fh, offset, size), FsOutcomeView::Failure(errno));
}

/// `read` of an intercepted file asks for its status and then, as long as bytes are missing
/// of the size that it tells, for all that are missing, from where the last read ended. When
/// all are there it asks for the snippets of the file.
pub proof fn law_intercepted_read_asks_for_what_is_missing(
    s: FsState,
    ino: u64,
    fh: u64,
    offset: u64,
    size: u32,
    p: Seq<u8>,
    st: Stat,
    chunks: Seq<Seq<u8>>,
    errno: i32,
)
    requires
        s.inodes.path_of(ino) == Some(p),
        s.files.contains_key(fh),
        s.intercepts(p),
        laws::no_empty_chunk(chunks),
        laws::concatenated(chunks).len() <= st.st_size as u64,
    ensures
        ({
            let start = s.read(ino, fh, offset, size);
            let (t, step) = laws::after(
                s,
                start,
                seq![FsOutcomeView::Status(st)] + laws::chunk_outcomes(chunks),
            );
            let done = laws::concatenated(chunks).len();
            let whole = st.st_size as u64;
            &&& laws::calls_made(s, start, seq![FsOutcomeView::Status(st)]) == seq![
                FsCallView::Fstat { fd: s.files[fh] },
            ]
            &&& t == s
            &&& done < whole ==> step is Call && step->call == (FsCallView::Pread {
                fd: s.files[fh],
                len: (whole - done) as u64,
                offset: done as i64,
            })
            &&& done == whole ==> step is Call && step->call == (FsCallView::Query {
                db: s.db,
                filename: provider::snippet_name(p),
            })
            &&& laws::after(s, start, seq![FsOutcomeView::Failure(errno)]) == (
                s,
                ends(Reply::Failure(errno)),
            )
        }),
{
    let start = s.read(ino, fh, offset, size);
    let fd = s.files[fh];
    let whole = st.st_size as u64;
    let none = Seq::<u8>::empty();
    lemma_one(s, start, FsOutcomeView::Status(st));
    lemma_one(s, start, FsOutcomeView::Failure(errno));
    lemma_cons(s, start, FsOutcomeView::Status(st), laws::chunk_outcomes(chunks));
    laws::lemma_content_is_collected(s, p, fd, offset, size, whole, none, chunks);
    assert(none + laws::concatenated(chunks) =~= laws::concatenated(chunks));
}

/// `access` asks the kernel about the path that the inode number leads to with the same mask,
/// and answers as the kernel does.
pub proof fn law_access(s: FsState, ino: u64, mask: i32, p: Seq<u8>, errno: i32)
    requires
        s.inodes.path_of(ino) == Some(p),
    ensures
        laws::calls_made(s, s.access(ino, mask), seq![FsOutcomeView::Success]) == seq![
            FsCallView::AccessAt { dir: s.root, path: path::c_path_of(p), mask },
        ],
        laws::after(s, s.access(ino, mask), seq![FsOutcomeView::Success]) == (s, ends(Reply::Empty)),
        laws::after(s, s.access(ino, mask), seq![FsOutcomeView::Failure(errno)]) == (
            s,
            ends(Reply::Failure(errno)),
        ),
{
    lemma_one(s, s.access(ino, mask), FsOutcomeView::Success);
    lemma_one(s, s.access(ino, mask), FsOutcomeView::Failure(errno));
}

/// `readlink` reads the link that the inode number leads to, and gives what the kernel read.
pub proof fn law_readlink(s: FsState, ino: u64, p: Seq<u8>, target: Seq<u8>, errno: i32)
    requires
        s.inodes.path_of(ino) == Some(p),
    ensures
        laws::calls_made(s, s.readlink(ino), seq![FsOutcomeView::Data(target)]) == seq![
            FsCallView::ReadlinkAt { dir: s.root, path: path::c_path_of(p), len: 4096 },
        ],
        laws::after(s, s.readlink(ino), seq![FsOutcomeView::Data(target)]) == (
            s,
            ends(Reply::Data(target)),
        ),
        laws::after(s, s.readlink(ino), seq![FsOutcomeView::Failure(errno)]) == (
            s,
            ends(Reply::Failure(errno)),
        ),
{
    lemma_one(s, s.readlink(ino), FsOutcomeView::Data(target));
    lemma_one(s, s.readlink(ino), FsOutcomeView::Failure(errno));
}

/// `statfs` asks about the filesystem of the directory that is proxied, and tells what the
/// kernel tells.
pub proof fn law_statfs(s: FsState, st: StatVfs, errno: i32)
    ensures
        laws::calls_made(s, s.statfs(), seq![FsOutcomeView::Filesystem(st)]) == seq![
            FsCallView::Fstatvfs { fd: s.root },
        ],
        laws::after(s, s.statfs(), seq![FsOutcomeView::Filesystem(st)]) == (
            s,
            ends(Reply::Usage(attr::usage_of(st))),
        ),
        laws::after(s, s.statfs(), seq![FsOutcomeView::Failure(errno)]) == (
            s,
            ends(Reply::Failure(errno)),
        ),
{
    lemma_one(s, s.statfs(), FsOutcomeView::Filesystem(st));
    lemma_one(s, s.statfs(), FsOutcomeView::Failure(errno));
}

/// `write` hands all its bytes to the kernel, for the file under the handle and at the same
/// offset, and tells how many were written.
pub proof fn law_write(s: FsState, fh: u64, offset: u64, data: Seq<u8>, count: u64, errno: i32)
    requires
        s.files.contains_key(fh),
    ensures
        ({
            let start = s.write(fh, offset, data);
            let written = seq![FsOutcomeView::Count(count)];
            &&& laws::calls_made(s, start, written) == seq![
                FsCallView::Pwrite { fd: s.files[fh], data, offset: offset as i64 },
            ]
            &&& laws::after(s, start, written) == (s, ends(Reply::Written(count as u32)))
            &&& laws::after(s, start, seq![FsOutcomeView::Failure(errno)]) == (
                s,
                ends(Reply::Failure(errno)),
            )
        }),
{
    lemma_one(s, s.write(fh, offset, data), FsOutcomeView::Count(count));
    lemma_one(s, s.write(fh, offset, data), FsOutcomeView::Failure(errno));
}

/// `fsync` writes the file under the handle through, or its data only, and answers as the
/// kernel does.
pub proof fn law_fsync(s: FsState, fh: u64, datasync: bool, errno: i32)
    requires
        s.files.contains_key(fh),
    ensures
        laws::calls_made(s, s.fsync(fh, datasync), seq![FsOutcomeView::Success]) == seq![
            FsCallView::Fsync { fd: s.files[fh], data_only: datasync },
        ],
        laws::after(s, s.fsync(fh, datasync), seq![FsOutcomeView::Success]) == (s, ends(Reply::Empty)),
        laws::after(s, s.fsync(fh, datasync), seq![FsOutcomeView::Failure(errno)]) == (
            s,
            ends(Reply::Failure(errno)),
        ),
{
    lemma_one(s, s.fsync(fh, datasync), FsOutcomeView::Success);
    lemma_one(s, s.fsync(fh, datasync), FsOutcomeView::Failure(errno));
}

/// `create` creates the name in the directory that the inode number leads to, with the flags
/// and the mode of the request, files the descriptor under the next handle, makes the path
/// known and tells the attributes and the handle. A file whose status cannot be had is
/// closed again, and nothing has changed.
pub proof fn law_create(
    s: FsState,
    parent: u64,
    name: Seq<u8>,
    mode: u32,
    flags: i32,
    p: Seq<u8>,
    fd: i32,
    st: Stat,
    answer: FsOutcomeView,
    errno: i32,
)
    requires
        s.inodes.path_of(parent) == Some(p),
        is_answer(answer),
    ensures
        ({
            let child = path::joined(p, name);
            let start = s.create(parent, name, mode, flags);
            let outcomes = seq![FsOutcomeView::Descriptor(fd), FsOutcomeView::Status(st), answer];
            &&& laws::calls_made(s, start, outcomes) == seq![
                FsCallView::CreateAt {
                    dir: s.root,
                    path: path::c_path_of(child),
                    flags: flags | 0o100,
                    mode,
                },
                FsCallView::Fstat { fd },
            ] + snippet_calls(s, child, st)
            &&& laws::after(s, start, outcomes) == (
                FsState {
                    inodes: s.inodes.inserted(child, st.st_ino),
                    files: s.files.insert(s.next_fh, fd),
                    next_fh: state::handle_after(s.next_fh),
                    ..s
                },
                FsStepView::Finish {
                    reply: Reply::Created {
                        ttl: s.ttl_for(child),
                        attr: told(s, child, st, answer),
                        fh: s.next_fh,
                    },
                    close: if s.files.contains_key(s.next_fh) {
                        Some(s.files[s.next_fh])
                    } else {
                        None
                    },
                },
            )
            &&& laws::after(s, start, seq![FsOutcomeView::Failure(errno)]) == (
                s,
                ends(Reply::Failure(errno)),
            )
            &&& laws::after(
                s,
                start,
                seq![FsOutcomeView::Descriptor(fd), FsOutcomeView::Failure(errno)],
            ) == (s, FsStepView::Finish { reply: Reply::Failure(errno), close: Some(fd) })
        }),
{
    let child = path::joined(p, name);
    let start = s.create(parent, name, mode, flags);
    let opened = FsOutcomeView::Descriptor(fd);
    let status = FsStepView::Call {
        call: FsCallView::Fstat { fd },
        next: Pending::CreateStatus { child, fd },
    };
    let t = s.with_inode(child, st.st_ino);
    lemma_three(s, start, opened, FsOutcomeView::Status(st), answer);
    lemma_two(s, status, FsOutcomeView::Status(st), answer);
    lemma_described(t, child, st, Form::Created { ttl: s.ttl_for(child), fd }, answer);
    lemma_one(s, start, FsOutcomeView::Failure(errno));
    lemma_two(s, start, opened, FsOutcomeView::Failure(errno));
    lemma_one(s, status, FsOutcomeView::Failure(errno));
    let calls = laws::calls_made(s, start, seq![opened, FsOutcomeView::Status(st), answer]);
    assert(calls =~= seq![start->call, FsCallView::Fstat { fd }] + snippet_calls(s, child, st));
}

/// `unlink` and `rmdir` delete the name in the directory that the inode number leads to, the
/// one as a file and the other as a directory, and then forget its path. After an error
/// nothing has changed.
pub proof fn law_remove(
    s: FsState,
    parent: u64,
    name: Seq<u8>,
    directory: bool,
    p: Seq<u8>,
    errno: i32,
)
    requires
        s.inodes.path_of(parent) == Some(p),
    ensures
        ({
            let child = path::joined(p, name);
            let start = s.remove(parent, name, directory);
            &&& laws::calls_made(s, start, seq![FsOutcomeView::Success]) == seq![
                FsCallView::UnlinkAt { dir: s.root, path: path::c_path_of(child), directory },
            ]
            &&& laws::after(s, start, seq![FsOutcomeView::Success]) == (
                FsState { inodes: s.inodes.removed(child), ..s },
                ends(Reply::Empty),
            )
            &&& laws::after(s, start, seq![FsOutcomeView::Failure(errno)]) == (
                s,
                ends(Reply::Failure(errno)),
            )
        }),
{
    lemma_one(s, s.remove(parent, name, directory), FsOutcomeView::Success);
    lemma_one(s, s.remove(parent, name, directory), FsOutcomeView::Failure(errno));
}

/// `rename` renames the name in the one directory to the new name in the other, with the
/// flags of the request, and then moves the inode number along, or exchanges the two. After
/// an error nothing has changed.
pub proof fn law_rename(
    s: FsState,
    parent: u64,
    name: Seq<u8>,
    newparent: u64,
    newname: Seq<u8>,
    flags: u32,
    p: Seq<u8>,
    q: Seq<u8>,
    errno: i32,
)
    requires
        s.inodes.path_of(parent) == Some(p),
        s.inodes.path_of(newparent) == Some(q),
    ensures
        ({
            let from = path::joined(p, name);
            let to = path::joined(q, newname);
            let start = s.rename(parent, name, newparent, newname, flags);
            let done = laws::after(s, start, seq![FsOutcomeView::Success]);
            &&& laws::calls_made(s, start, seq![FsOutcomeView::Success]) == seq![
                FsCallView::RenameAt {
                    dir: s.root,
                    old_path: path::c_path_of(from),
                    new_path: path::c_path_of(to),
                    flags,
                },
            ]
            &&& done.1 == ends(Reply::Empty)
            &&& flags & 2 == 0 ==> done.0 == (FsState { inodes: s.inodes.renamed(from, to), ..s })
            &&& flags & 2 != 0 ==> done.0 == (FsState {
                inodes: s.inodes.exchanged(from, to),
                ..s
            })
            &&& laws::after(s, start, seq![FsOutcomeView::Failure(errno)]) == (
                s,
                ends(Reply::Failure(errno)),
            )
        }),
{
    let start = s.rename(parent, name, newparent, newname, flags);
    lemma_one(s, start, FsOutcomeView::Success);
    lemma_one(s, start, FsOutcomeView::Failure(errno));
}

/// What happens once a directory or a link was made: its status is asked for, its path is
/// made known and its attributes are told.
proof fn lemma_made(
    s: FsState,
    start: FsStepView,
    child: Seq<u8>,
    st: Stat,
    answer: FsOutcomeView,
    errno: i32,
)
    requires
        is_answer(answer),
        start matches Step::Call { next, .. } && next == (Pending::<Seq<u8>>::Make { path: child }),
    ensures
        makes(s, start, start->call, child, st, answer, errno),
{
    let made = s.stat_path(child, Pending::MakeStatus { path: child });
    let t = s.with_inode(child, st.st_ino);
    lemma_three(s, start, FsOutcomeView::Success, FsOutcomeView::Status(st), answer);
    lemma_two(s, made, FsOutcomeView::Status(st), answer);
    lemma_described(t, child, st, Form::Entry { ttl: 1 }, answer);
    lemma_one(s, start, FsOutcomeView::Failure(errno));
    lemma_two(s, start, FsOutcomeView::Success, FsOutcomeView::Failure(errno));
    lemma_one(s, made, FsOutcomeView::Failure(errno));
    let outcomes = seq![FsOutcomeView::Success, FsOutcomeView::Status(st), answer];
    assert(laws::calls_made(s, start, outcomes) =~= seq![
        start->call,
        FsCallView::StatAt { dir: s.root, path: path::c_path_of(child) },
    ] + snippet_calls(s, child, st));
}

/// Whether a request makes the call `call` first, then asks for the status of `child`, tells
/// the attributes that it gives, to be kept for a second, and makes the path known under the
/// number of the status; and whether after an error nothing has changed.
pub open spec fn makes(
    s: FsState,
    start: FsStepView,
    call: FsCallView,
    child: Seq<u8>,
    st: Stat,
    answer: FsOutcomeView,
    errno: i32,
) -> bool {
    let outcomes = seq![FsOutcomeView::Success, FsOutcomeView::Status(st), answer];
    &&& laws::calls_made(s, start, outcomes) == seq![
        call,
        FsCallView::StatAt { dir: s.root, path: path::c_path_of(child) },
    ] + snippet_calls(s, child, st)
    &&& laws::after(s, start, outcomes) == (
        FsState { inodes: s.inodes.inserted(child, st.st_ino), ..s },
        ends(Reply::Entry { ttl: 1, attr: told(s, child, st, answer) }),
    )
    &&& laws::after(s, start, seq![FsOutcomeView::Failure(errno)]) == (s, ends(Reply::Failure(errno)))
    &&& laws::after(s, start, seq![FsOutcomeView::Success, FsOutcomeView::Failure(errno)]) == (
        s,
        ends(Reply::Failure(errno)),
    )
}

/// `mkdir` makes a directory of the name in the directory that the inode number leads to, with
/// the mode of the request, makes its path known and tells its attributes.
pub proof fn law_mkdir(
    s: FsState,
    parent: u64,
    name: Seq<u8>,
    mode: u32,
    p: Seq<u8>,
    st: Stat,
    answer: FsOutcomeView,
    errno: i32,
)
    requires
        s.inodes.path_of(parent) == Some(p),
        is_answer(answer),
    ensures
        makes(
            s,
            s.mkdir(parent, name, mode),
            FsCallView::MkdirAt {
                dir: s.root,
                path: path::c_path_of(path::joined(p, name)),
                mode,
            },
            path::joined(p, name),
            st,
            answer,
            errno,
        ),
{
    lemma_made(s, s.mkdir(parent, name, mode), path::joined(p, name), st, answer, errno);
}

/// `symlink` makes a link of the name in the directory that the inode number leads to, with the
/// target of the request, makes its path known and tells its attributes. A target with a NUL
/// byte is empty.
pub proof fn law_symlink(
    s: FsState,
    parent: u64,
    link_name: Seq<u8>,
    target: Seq<u8>,
    p: Seq<u8>,
    st: Stat,
    answer: FsOutcomeView,
    errno: i32,
)
    requires
        s.inodes.path_of(parent) == Some(p),
        is_answer(answer),
    ensures
        makes(
            s,
            s.symlink(parent, link_name, target),
            FsCallView::SymlinkAt {
                target: if exists|i: int| 0 <= i < target.len() && target[i] == 0 {
                    Seq::<u8>::empty()
                } else {
                    target
                },
                dir: s.root,
                path: path::c_path_of(path::joined(p, link_name)),
            },
            path::joined(p, link_name),
            st,
            answer,
            errno,
        ),
{
    if exists|i: int| 0 <= i < target.len() && target[i] == 0 {
        let i = choose|i: int| 0 <= i < target.len() && target[i] == 0;
        assert(target.contains(target[i]));
    }
    let start = s.symlink(parent, link_name, target);
    lemma_made(s, start, path::joined(p, link_name), st, answer, errno);
}

/// `link` makes a link to the file that the inode number leads to, of the name in the directory
/// that the other leads to, makes its path known and tells its attributes.
pub proof fn law_link(
    s: FsState,
    ino: u64,
    newparent: u64,
    newname: Seq<u8>,
    p: Seq<u8>,
    q: Seq<u8>,
    st: Stat,
    answer: FsOutcomeView,
    errno: i32,
)
    requires
        s.inodes.path_of(ino) == Some(p),
        s.inodes.path_of(newparent) == Some(q),
        is_answer(answer),
    ensures
        makes(
            s,
            s.link(ino, newparent, newname),
            FsCallView::LinkAt {
                dir: s.root,
                old_path: path::c_path_of(p),
                new_path: path::c_path_of(path::joined(q, newname)),
            },
            path::joined(q, newname),
            st,
            answer,
            errno,
        ),
{
    lemma_made(s, s.link(ino, newparent, newname), path::joined(q, newname), st, answer, errno);
}

/// How a change of attributes through a descriptor runs.
proof fn lemma_change_run(
    s: FsState,
    p: Seq<u8>,
    change: AttrChange,
    fd: i32,
    close: Option<i32>,
    st: Stat,
    answer: FsOutcomeView,
    k: nat,
    errno: i32,
)
    requires
        is_answer(answer),
        k <= laws::planned_changes(change, fd).len(),
    ensures
        changes(
            s,
            s.change_on(p, change, fd, close),
            laws::planned_changes(change, fd),
            p,
            close,
            st,
            answer,
            k,
            errno,
        ),
    decreases laws::planned_changes(change, fd).len(),
{
    let step = s.change_on(p, change, fd, close);
    let plan = laws::planned_changes(change, fd);
    let end = seq![FsOutcomeView::Status(st), answer];
    let failure = seq![FsOutcomeView::Failure(errno)];
    if let Step::Call { call, next } = step {
        if let Pending::SetAttrChange { change: rest, .. } = next {
            let tail = laws::planned_changes(rest, fd);
            assert(plan =~= seq![call] + tail);
            let fewer = if k > 0 {
                (k - 1) as nat
            } else {
                0
            };
            lemma_change_run(s, p, rest, fd, close, st, answer, fewer, errno);
            lemma_run_on(s, step, s.change_on(p, rest, fd, close), tail.len(), end, k, failure);
            let last = seq![FsCallView::StatAt { dir: s.root, path: path::c_path_of(p) }]
                + snippet_calls(s, p, st);
            assert(seq![call] + (tail + last) =~= plan + last);
            assert(forall|calls: Seq<FsCallView>|
                #![trigger calls + last]
                calls + last =~= calls + seq![
                    FsCallView::StatAt { dir: s.root, path: path::c_path_of(p) },
                ] + snippet_calls(s, p, st));
        } else {
            assert(plan =~= Seq::empty());
            lemma_status_last(s, p, close, st, answer, errno);
            assert(successes(0) + end =~= end);
            assert(successes(0) + failure =~= failure);
            assert(plan + seq![call] =~= seq![call]);
        }
    }
}

/// How a change of attributes by the path runs.
proof fn lemma_path_change_run(
    s: FsState,
    p: Seq<u8>,
    change: AttrChange,
    st: Stat,
    answer: FsOutcomeView,
    k: nat,
    errno: i32,
)
    requires
        is_answer(answer),
        k <= laws::planned_path_changes(change, s.root, path::c_path_of(p)).len(),
    ensures
        changes(
            s,
            s.change_path_on(p, change),
            laws::planned_path_changes(change, s.root, path::c_path_of(p)),
            p,
            None,
            st,
            answer,
            k,
            errno,
        ),
    decreases laws::planned_path_changes(change, s.root, path::c_path_of(p)).len(),
{
    let step = s.change_path_on(p, change);
    let plan = laws::planned_path_changes(change, s.root, path::c_path_of(p));
    let end = seq![FsOutcomeView::Status(st), answer];
    let failure = seq![FsOutcomeView::Failure(errno)];
    if let Step::Call { call, next } = step {
        if let Pending::SetAttrPath { change: rest, .. } = next {
            let tail = laws::planned_path_changes(rest, s.root, path::c_path_of(p));
            assert(plan =~= seq![call] + tail);
            let fewer = if k > 0 {
                (k - 1) as nat
            } else {
                0
            };
            lemma_path_change_run(s, p, rest, st, answer, fewer, errno);
            lemma_run_on(s, step, s.change_path_on(p, rest), tail.len(), end, k, failure);
            let last = seq![FsCallView::StatAt { dir: s.root, path: path::c_path_of(p) }]
                + snippet_calls(s, p, st);
            assert(seq![call] + (tail + last) =~= plan + last);
            assert(forall|calls: Seq<FsCallView>|
                #![trigger calls + last]
                calls + last =~= calls + seq![
                    FsCallView::StatAt { dir: s.root, path: path::c_path_of(p) },
                ] + snippet_calls(s, p, st));
        } else {
            assert(plan =~= Seq::empty());
            lemma_status_last(s, p, None, st, answer, errno);
            assert(successes(0) + end =~= end);
            assert(successes(0) + failure =~= failure);
            assert(plan + seq![call] =~= seq![call]);
        }
    }
}

/// A change that succeeds leads on to the rest of the changes.
proof fn lemma_run_on(
    s: FsState,
    step: FsStepView,
    then: FsStepView,
    n: nat,
    end: Seq<FsOutcomeView>,
    k: nat,
    failure: Seq<FsOutcomeView>,
)
    requires
        step is Call,
        s.resumed(step->next, FsOutcomeView::Success) == (s, then),
        failure.len() == 1,
    ensures
        laws::after(s, step, successes(n + 1) + end) == laws::after(s, then, successes(n) + end),
        laws::calls_made(s, step, successes(n + 1) + end) == seq![step->call] + laws::calls_made(
            s,
            then,
            successes(n) + end,
        ),
        k > 0 ==> laws::after(s, step, successes(k) + failure) == laws::after(
            s,
            then,
            successes((k - 1) as nat) + failure,
        ),
        k == 0 ==> laws::after(s, step, successes(k) + failure) == s.resumed(
            step->next,
            failure[0],
        ),
{
    let success = FsOutcomeView::Success;
    assert(successes(n + 1) + end =~= seq![success] + (successes(n) + end));
    lemma_cons(s, step, success, successes(n) + end);
    if k > 0 {
        assert(successes(k) + failure =~= seq![success] + (successes((k - 1) as nat) + failure));
        lemma_cons(s, step, success, successes((k - 1) as nat) + failure);
    } else {
        assert(successes(0) + failure =~= seq![failure[0]]);
        lemma_one(s, step, failure[0]);
    }
}

/// The status of a file whose attributes were changed ends the change.
proof fn lemma_status_last(
    s: FsState,
    p: Seq<u8>,
    close: Option<i32>,
    st: Stat,
    answer: FsOutcomeView,
    errno: i32,
)
    requires
        is_answer(answer),
    ensures
        ({
            let step = s.stat_path(p, Pending::SetAttrStatus { path: p, close });
            let end = seq![FsOutcomeView::Status(st), answer];
            &&& laws::after(s, step, end) == (
                s,
                FsStepView::Finish {
                    reply: Reply::Attr { ttl: s.ttl_for(p), attr: told(s, p, st, answer) },
                    close,
                },
            )
            &&& laws::calls_made(s, step, end) == seq![step->call] + snippet_calls(s, p, st)
            &&& laws::after(s, step, seq![FsOutcomeView::Failure(errno)]) == (
                s,
                FsStepView::Finish { reply: Reply::Failure(errno), close },
            )
        }),
{
    let step = s.stat_path(p, Pending::SetAttrStatus { path: p, close });
    lemma_two(s, step, FsOutcomeView::Status(st), answer);
    lemma_one(s, step, FsOutcomeView::Failure(errno));
    lemma_described(s, p, st, Form::Attr { ttl: s.ttl_for(p), close }, answer);
}

/// Whether, from this step on, a request makes exactly the planned changes, one after the
/// other, then asks for the status of the file and tells the attributes that it gives, and
/// closes `close`; and whether the first of these calls that fails, here the one behind `k`
/// that succeeded, ends the request with its error. Nothing that is kept changes.
pub open spec fn changes(
    s: FsState,
    step: FsStepView,
    plan: Seq<FsCallView>,
    p: Seq<u8>,
    close: Option<i32>,
    st: Stat,
    answer: FsOutcomeView,
    k: nat,
    errno: i32,
) -> bool {
    let outcomes = successes(plan.len()) + seq![FsOutcomeView::Status(st), answer];
    let failing = successes(k) + seq![FsOutcomeView::Failure(errno)];
    &&& laws::calls_made(s, step, outcomes) == plan + seq![
        FsCallView::StatAt { dir: s.root, path: path::c_path_of(p) },
    ] + snippet_calls(s, p, st)
    &&& laws::after(s, step, outcomes) == (
        s,
        FsStepView::Finish {
            reply: Reply::Attr { ttl: s.ttl_for(p), attr: told(s, p, st, answer) },
            close,
        },
    )
    &&& k <= plan.len() ==> laws::after(s, step, failing) == (
        s,
        FsStepView::Finish { reply: Reply::Failure(errno), close },
    )
}

/// `setattr` through a handle makes the changes that are asked for on the file under it, and
/// then tells its attributes.
pub proof fn law_setattr_through_a_handle(
    s: FsState,
    ino: u64,
    change: AttrChange,
    fh: u64,
    p: Seq<u8>,
    st: Stat,
    answer: FsOutcomeView,
    k: nat,
    errno: i32,
)
    requires
        s.inodes.path_of(ino) == Some(p),
        s.files.contains_key(fh),
        is_answer(answer),
    ensures
        changes(
            s,
            s.setattr(ino, change, Some(fh)),
            laws::planned_changes(change, s.files[fh]),
            p,
            None,
            st,
            answer,
            k,
            errno,
        ),
{
    let fd = s.files[fh];
    let within = if k <= laws::planned_changes(change, fd).len() {
        k
    } else {
        0
    };
    lemma_change_run(s, p, change, fd, None, st, answer, within, errno);
}

/// `setattr` without a handle opens the file that the inode number leads to, for reading and
/// writing or else for writing only, makes the changes that are asked for on it, tells its
/// attributes and closes it. A file that cannot be opened is changed by its path, unless a new
/// size is asked for, which ends with the error of the second try.
pub proof fn law_setattr_without_a_handle(
    s: FsState,
    ino: u64,
    change: AttrChange,
    p: Seq<u8>,
    fd: i32,
    st: Stat,
    answer: FsOutcomeView,
    k: nat,
    first: i32,
    second: i32,
    errno: i32,
)
    requires
        s.inodes.path_of(ino) == Some(p),
        is_answer(answer),
    ensures
        ({
            let c_path = path::c_path_of(p);
            let start = s.setattr(ino, change, None);
            let opened = laws::after(s, start, seq![FsOutcomeView::Descriptor(fd)]);
            let again = laws::after(s, start, seq![FsOutcomeView::Failure(first)]);
            let reopened = laws::after(s, again.1, seq![FsOutcomeView::Descriptor(fd)]);
            let given_up = laws::after(s, again.1, seq![FsOutcomeView::Failure(second)]);
            &&& start is Call && start->call == (FsCallView::OpenNoFollowAt {
                dir: s.root,
                path: c_path,
                flags: 2,
            })
            &&& again.1 is Call && again.1->call == (FsCallView::OpenNoFollowAt {
                dir: s.root,
                path: c_path,
                flags: 1,
            })
            &&& opened.0 == s && again.0 == s && reopened.0 == s && given_up.0 == s
            &&& changes(
                s,
                opened.1,
                laws::planned_changes(change, fd),
                p,
                Some(fd),
                st,
                answer,
                k,
                errno,
            )
            &&& changes(
                s,
                reopened.1,
                laws::planned_changes(change, fd),
                p,
                Some(fd),
                st,
                answer,
                k,
                errno,
            )
            &&& change.size is None ==> changes(
                s,
                given_up.1,
                laws::planned_path_changes(change, s.root, c_path),
                p,
                None,
                st,
                answer,
                k,
                errno,
            )
            &&& change.size is Some ==> given_up.1 == ends(Reply::Failure(second))
        }),
{
    let c_path = path::c_path_of(p);
    let start = s.setattr(ino, change, None);
    let again = s.open_to_change(p, change, true);
    lemma_one(s, start, FsOutcomeView::Descriptor(fd));
    lemma_one(s, start, FsOutcomeView::Failure(first));
    lemma_one(s, again, FsOutcomeView::Descriptor(fd));
    lemma_one(s, again, FsOutcomeView::Failure(second));
    let by_fd = if k <= laws::planned_changes(change, fd).len() {
        k
    } else {
        0
    };
    let by_path = if k <= laws::planned_path_changes(change, s.root, c_path).len() {
        k
    } else {
        0
    };
    lemma_change_run(s, p, change, fd, Some(fd), st, answer, by_fd, errno);
    lemma_path_change_run(s, p, change, st, answer, by_path, errno);
}

/// `read` of an intercepted file that turns out shorter than its status tells, or cannot be
/// read to its end, asks for the snippets of the file all the same, and of no other.
pub proof fn law_short_read_asks_for_the_snippets(
    s: FsState,
    ino: u64,
    fh: u64,
    offset: u64,
    size: u32,
    p: Seq<u8>,
    st: Stat,
    chunks: Seq<Seq<u8>>,
    end: FsOutcomeView,
)
    requires
        s.inodes.path_of(ino) == Some(p),
        s.files.contains_key(fh),
        s.intercepts(p),
        laws::no_empty_chunk(chunks),
        laws::concatenated(chunks).len() < st.st_size as u64,
        end is Failure || end == FsOutcomeView::Data(Seq::empty()),
    ensures
        ({
            let (t, step) = laws::after(
                s,
                s.read(ino, fh, offset, size),
                seq![FsOutcomeView::Status(st)] + laws::chunk_outcomes(chunks) + seq![end],
            );
            &&& t == s
            &&& step is Call
            &&& step->call == (FsCallView::Query {
                db: s.db,
                filename: provider::snippet_name(p),
            })
        }),
{
    let start = s.read(ino, fh, offset, size);
    let fd = s.files[fh];
    let whole = st.st_size as u64;
    let none = Seq::<u8>::empty();
    let data = laws::chunk_outcomes(chunks);
    let status = seq![FsOutcomeView::Status(st)];
    laws::lemma_after_concat(s, start, status + data, seq![end]);
    lemma_cons(s, start, FsOutcomeView::Status(st), data);
    laws::lemma_content_is_collected(s, p, fd, offset, size, whole, none, chunks);
    assert(none + laws::concatenated(chunks) =~= laws::concatenated(chunks));
    lemma_one(s, s.read_on(p, fd, offset, size, whole, laws::concatenated(chunks)), end);
}

} // verus!
