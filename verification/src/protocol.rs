//! The steps of a request: the calls that are made on its behalf, what comes back from
//! them, what it waits for meanwhile, and the reply.
//!
//! Each type stands both for values in memory, which hold vectors and strings, and for
//! their views, which hold sequences. The parameters are `B` for byte strings, `S` for
//! text, `D` for the entries of a reply, `E` for the entries read from a directory and
//! `R` for the rows of a query.

use vstd::prelude::*;

use crate::attr;
use crate::attr::{FileAttr, FileType, FsUsage, Stat, StatVfs, Timespec};
use crate::provider;
use crate::provider::SqliteProvider;

verus! {

/// A call to make outside: a system call, or a query in the database of snippets. Paths
/// hold no NUL byte, and are taken relative to the directory that `dir` is open on.
#[derive(Debug, PartialEq, Eq)]
pub enum Call<B, S> {
    /// `fstatat` that does not follow a symbolic link.
    StatAt { dir: i32, path: B },
    /// `openat` of a directory, for reading.
    OpenDirAt { dir: i32, path: B },
    /// `openat` without a mode.
    OpenAt { dir: i32, path: B, flags: i32 },
    /// `openat` without a mode, which does not follow a symbolic link.
    OpenNoFollowAt { dir: i32, path: B, flags: i32 },
    /// `openat` with a mode for the file that it creates.
    CreateAt { dir: i32, path: B, flags: i32, mode: u32 },
    /// `fstat`.
    Fstat { fd: i32 },
    /// `fstatvfs`.
    Fstatvfs { fd: i32 },
    /// Read all entries of a directory, from its beginning, on a duplicate of `fd`.
    ListDir { fd: i32 },
    /// `pread` of at most `len` bytes.
    Pread { fd: i32, len: u64, offset: i64 },
    /// `pwrite`.
    Pwrite { fd: i32, data: B, offset: i64 },
    /// `faccessat`.
    AccessAt { dir: i32, path: B, mask: i32 },
    /// `readlinkat` of at most `len` bytes.
    ReadlinkAt { dir: i32, path: B, len: u64 },
    /// `fchmod`.
    Fchmod { fd: i32, mode: u32 },
    /// `fchown`.
    Fchown { fd: i32, uid: u32, gid: u32 },
    /// `ftruncate`.
    Ftruncate { fd: i32, size: i64 },
    /// `futimens`.
    Futimens { fd: i32, atime: Timespec, mtime: Timespec },
    /// `fchmodat` without flags. No mode is asked for of a symbolic link, which has none.
    FchmodAt { dir: i32, path: B, mode: u32 },
    /// `fchownat` that does not follow a symbolic link.
    FchownAt { dir: i32, path: B, uid: u32, gid: u32 },
    /// `utimensat` that does not follow a symbolic link.
    UtimensAt { dir: i32, path: B, atime: Timespec, mtime: Timespec },
    /// `unlinkat`, of a directory where `directory` holds.
    UnlinkAt { dir: i32, path: B, directory: bool },
    /// `mkdirat`.
    MkdirAt { dir: i32, path: B, mode: u32 },
    /// `renameat2` with both paths relative to `dir`.
    RenameAt { dir: i32, old_path: B, new_path: B, flags: u32 },
    /// `linkat` with both paths relative to `dir`, without flags.
    LinkAt { dir: i32, old_path: B, new_path: B },
    /// `symlinkat`.
    SymlinkAt { target: B, dir: i32, path: B },
    /// `fdatasync` where `data_only` holds, else `fsync`.
    Fsync { fd: i32, data_only: bool },
    /// The snippets of a file, from the database at `db`.
    Query { db: B, filename: S },
}

/// What comes back from a call.
#[derive(Debug, PartialEq, Eq)]
pub enum Outcome<B, E, R> {
    /// A system call failed with this error number.
    Failure(i32),
    /// A system call succeeded that gives nothing.
    Success,
    /// A file was opened.
    Descriptor(i32),
    /// The status of a file.
    Status(Stat),
    /// The status of a filesystem.
    Filesystem(StatVfs),
    /// Bytes were read.
    Data(B),
    /// So many bytes were written.
    Count(u64),
    /// The entries of a directory; `None` for one that could not be read.
    Entries(E),
    /// The snippets that the database holds, in order.
    Rows(R),
    /// The database gave no answer.
    Unavailable,
}

/// A directory entry as it is read.
#[derive(Debug, PartialEq, Eq)]
pub struct RawEntry<B> {
    pub ino: u64,
    pub name: B,
    pub kind: Option<FileType>,
}

/// A directory entry as it is listed. Listing goes on behind it at offset `next`.
#[derive(Debug, PartialEq, Eq)]
pub struct DirItem<B> {
    pub ino: u64,
    pub next: u64,
    pub kind: FileType,
    pub name: B,
}

/// The reply to a request. Times to live are in seconds.
#[derive(Debug, PartialEq, Eq)]
pub enum Reply<B, D> {
    Failure(i32),
    Empty,
    Data(B),
    Written(u32),
    Opened { fh: u64 },
    Entry { ttl: u64, attr: FileAttr },
    Attr { ttl: u64, attr: FileAttr },
    Created { ttl: u64, attr: FileAttr, fh: u64 },
    Directory(D),
    Usage(FsUsage),
}

/// The changes to the attributes of a file that are still to be made.
#[derive(Clone, Copy, Debug, PartialEq, Eq)]
pub struct AttrChange {
    pub mode: Option<u32>,
    pub owner: Option<(u32, u32)>,
    pub size: Option<i64>,
    pub times: Option<(Timespec, Timespec)>,
}

/// The form in which the attributes of a file are reported.
#[derive(Clone, Copy, Debug, PartialEq, Eq)]
pub enum Form {
    /// The attributes alone; `close` is a descriptor that is no longer needed.
    Attr { ttl: u64, close: Option<i32> },
    /// A directory entry.
    Entry { ttl: u64 },
    /// A directory entry of a file that is open as `fd`.
    Created { ttl: u64, fd: i32 },
}

/// What a request waits for.
#[derive(Debug, PartialEq, Eq)]
pub enum Pending<B> {
    /// The status of an entry that was looked up.
    Lookup { child: B },
    /// The status of a file.
    GetAttr { path: B },
    /// The snippets that bear on the size of a file.
    Describe { st: Stat, form: Form },
    /// A directory that is being opened.
    OpenDir,
    /// The entries of a directory.
    ReadDir { parent: B, offset: u64 },
    /// A file that is being opened.
    Open,
    /// Bytes to pass on.
    PassData,
    /// The status of an intercepted file that is read.
    ReadStatus { path: B, fd: i32, offset: u64, size: u32 },
    /// More of an intercepted file, of which `content` has been read.
    ReadContent { path: B, fd: i32, offset: u64, size: u32, real_size: u64, content: B },
    /// The snippets for an intercepted file that has been read.
    ReadExtra { offset: u64, size: u32, content: B },
    /// The success of a call that changes nothing that is kept here.
    Acknowledge,
    /// The status of the filesystem.
    Usage,
    /// A write.
    Write,
    /// A file whose attributes are to be changed, opened for reading and writing, or for
    /// writing only where `fallback` holds.
    SetAttrOpen { path: B, change: AttrChange, fallback: bool },
    /// A change of attributes, with `change` to follow.
    SetAttrChange { path: B, change: AttrChange, fd: i32, close: Option<i32> },
    /// A change of attributes of a file that cannot be opened, with `change` to follow.
    SetAttrPath { path: B, change: AttrChange },
    /// The status of a file whose attributes were changed.
    SetAttrStatus { path: B, close: Option<i32> },
    /// A file that is being created.
    CreateOpen { child: B },
    /// The status of a file that was created.
    CreateStatus { child: B, fd: i32 },
    /// The deletion of an entry.
    Remove { child: B },
    /// The creation of a directory or a link.
    Make { path: B },
    /// The status of a directory or a link that was created.
    MakeStatus { path: B },
    /// A rename, or an exchange of the two entries where `exchange` holds.
    Rename { old_path: B, new_path: B, exchange: bool },
}

/// The next step of a request: a call to make, and what to resume with its outcome; or
/// the reply, and a descriptor to close.
#[derive(Debug, PartialEq, Eq)]
pub enum Step<B, S, D> {
    Call { call: Call<B, S>, next: Pending<B> },
    Finish { reply: Reply<B, D>, close: Option<i32> },
}

pub type FsCall = Call<Vec<u8>, String>;

pub type FsCallView = Call<Seq<u8>, Seq<char>>;

pub type FsOutcome = Outcome<Vec<u8>, Vec<Option<RawEntry<Vec<u8>>>>, Vec<String>>;

pub type FsOutcomeView = Outcome<Seq<u8>, Seq<Option<RawEntry<Seq<u8>>>>, Seq<Seq<char>>>;

pub type FsReply = Reply<Vec<u8>, Vec<DirItem<Vec<u8>>>>;

pub type FsReplyView = Reply<Seq<u8>, Seq<DirItem<Seq<u8>>>>;

pub type FsPending = Pending<Vec<u8>>;

pub type FsPendingView = Pending<Seq<u8>>;

pub type FsStep = Step<Vec<u8>, String, Vec<DirItem<Vec<u8>>>>;

pub type FsStepView = Step<Seq<u8>, Seq<char>, Seq<DirItem<Seq<u8>>>>;

impl View for Call<Vec<u8>, String> {
    type V = Call<Seq<u8>, Seq<char>>;

    open spec fn view(&self) -> Call<Seq<u8>, Seq<char>> {
        match *self {
            Call::StatAt { dir, path } => Call::StatAt { dir, path: path@ },
            Call::OpenDirAt { dir, path } => Call::OpenDirAt { dir, path: path@ },
            Call::OpenAt { dir, path, flags } => Call::OpenAt { dir, path: path@, flags },
            Call::OpenNoFollowAt { dir, path, flags } => Call::OpenNoFollowAt {
                dir,
                path: path@,
                flags,
            },
            Call::CreateAt { dir, path, flags, mode } => Call::CreateAt {
                dir,
                path: path@,
                flags,
                mode,
            },
            Call::Fstat { fd } => Call::Fstat { fd },
            Call::Fstatvfs { fd } => Call::Fstatvfs { fd },
            Call::ListDir { fd } => Call::ListDir { fd },
            Call::Pread { fd, len, offset } => Call::Pread { fd, len, offset },
            Call::Pwrite { fd, data, offset } => Call::Pwrite { fd, data: data@, offset },
            Call::AccessAt { dir, path, mask } => Call::AccessAt { dir, path: path@, mask },
            Call::ReadlinkAt { dir, path, len } => Call::ReadlinkAt { dir, path: path@, len },
            Call::Fchmod { fd, mode } => Call::Fchmod { fd, mode },
            Call::Fchown { fd, uid, gid } => Call::Fchown { fd, uid, gid },
            Call::Ftruncate { fd, size } => Call::Ftruncate { fd, size },
            Call::Futimens { fd, atime, mtime } => Call::Futimens { fd, atime, mtime },
            Call::FchmodAt { dir, path, mode } => Call::FchmodAt { dir, path: path@, mode },
            Call::FchownAt { dir, path, uid, gid } => Call::FchownAt {
                dir,
                path: path@,
                uid,
                gid,
            },
            Call::UtimensAt { dir, path, atime, mtime } => Call::UtimensAt {
                dir,
                path: path@,
                atime,
                mtime,
            },
            Call::UnlinkAt { dir, path, directory } => Call::UnlinkAt {
                dir,
                path: path@,
                directory,
            },
            Call::MkdirAt { dir, path, mode } => Call::MkdirAt { dir, path: path@, mode },
            Call::RenameAt { dir, old_path, new_path, flags } => Call::RenameAt {
                dir,
                old_path: old_path@,
                new_path: new_path@,
                flags,
            },
            Call::LinkAt { dir, old_path, new_path } => Call::LinkAt {
                dir,
                old_path: old_path@,
                new_path: new_path@,
            },
            Call::SymlinkAt { target, dir, path } => Call::SymlinkAt {
                target: target@,
                dir,
                path: path@,
            },
            Call::Fsync { fd, data_only } => Call::Fsync { fd, data_only },
            Call::Query { db, filename } => Call::Query { db: db@, filename: filename@ },
        }
    }
}

impl View for RawEntry<Vec<u8>> {
    type V = RawEntry<Seq<u8>>;

    open spec fn view(&self) -> RawEntry<Seq<u8>> {
        RawEntry { ino: self.ino, name: self.name@, kind: self.kind }
    }
}

/// The entries of a directory as they are read.
pub open spec fn raw_entries(entries: Seq<Option<RawEntry<Vec<u8>>>>) -> Seq<
    Option<RawEntry<Seq<u8>>>,
> {
    entries.map_values(
        |entry: Option<RawEntry<Vec<u8>>>|
            match entry {
                Some(e) => Some(e@),
                None => None,
            },
    )
}

impl View for Outcome<Vec<u8>, Vec<Option<RawEntry<Vec<u8>>>>, Vec<String>> {
    type V = Outcome<Seq<u8>, Seq<Option<RawEntry<Seq<u8>>>>, Seq<Seq<char>>>;

    open spec fn view(&self) -> Outcome<Seq<u8>, Seq<Option<RawEntry<Seq<u8>>>>, Seq<Seq<char>>> {
        match *self {
            Outcome::Failure(errno) => Outcome::Failure(errno),
            Outcome::Success => Outcome::Success,
            Outcome::Descriptor(fd) => Outcome::Descriptor(fd),
            Outcome::Status(st) => Outcome::Status(st),
            Outcome::Filesystem(st) => Outcome::Filesystem(st),
            Outcome::Data(data) => Outcome::Data(data@),
            Outcome::Count(count) => Outcome::Count(count),
            Outcome::Entries(entries) => Outcome::Entries(raw_entries(entries@)),
            Outcome::Rows(rows) => Outcome::Rows(provider::texts(rows@)),
            Outcome::Unavailable => Outcome::Unavailable,
        }
    }
}

impl View for DirItem<Vec<u8>> {
    type V = DirItem<Seq<u8>>;

    open spec fn view(&self) -> DirItem<Seq<u8>> {
        DirItem { ino: self.ino, next: self.next, kind: self.kind, name: self.name@ }
    }
}

/// The entries of a directory as they are listed.
pub open spec fn dir_items(items: Seq<DirItem<Vec<u8>>>) -> Seq<DirItem<Seq<u8>>> {
    items.map_values(|item: DirItem<Vec<u8>>| item@)
}

impl View for Reply<Vec<u8>, Vec<DirItem<Vec<u8>>>> {
    type V = Reply<Seq<u8>, Seq<DirItem<Seq<u8>>>>;

    open spec fn view(&self) -> Reply<Seq<u8>, Seq<DirItem<Seq<u8>>>> {
        match *self {
            Reply::Failure(errno) => Reply::Failure(errno),
            Reply::Empty => Reply::Empty,
            Reply::Data(data) => Reply::Data(data@),
            Reply::Written(count) => Reply::Written(count),
            Reply::Opened { fh } => Reply::Opened { fh },
            Reply::Entry { ttl, attr } => Reply::Entry { ttl, attr },
            Reply::Attr { ttl, attr } => Reply::Attr { ttl, attr },
            Reply::Created { ttl, attr, fh } => Reply::Created { ttl, attr, fh },
            Reply::Directory(items) => Reply::Directory(dir_items(items@)),
            Reply::Usage(usage) => Reply::Usage(usage),
        }
    }
}

impl View for Pending<Vec<u8>> {
    type V = Pending<Seq<u8>>;

    open spec fn view(&self) -> Pending<Seq<u8>> {
        match *self {
            Pending::Lookup { child } => Pending::Lookup { child: child@ },
            Pending::GetAttr { path } => Pending::GetAttr { path: path@ },
            Pending::Describe { st, form } => Pending::Describe { st, form },
            Pending::OpenDir => Pending::OpenDir,
            Pending::ReadDir { parent, offset } => Pending::ReadDir { parent: parent@, offset },
            Pending::Open => Pending::Open,
            Pending::PassData => Pending::PassData,
            Pending::ReadStatus { path, fd, offset, size } => Pending::ReadStatus {
                path: path@,
                fd,
                offset,
                size,
            },
            Pending::ReadContent {
                path,
                fd,
                offset,
                size,
                real_size,
                content,
            } => Pending::ReadContent {
                path: path@,
                fd,
                offset,
                size,
                real_size,
                content: content@,
            },
            Pending::ReadExtra { offset, size, content } => Pending::ReadExtra {
                offset,
                size,
                content: content@,
            },
            Pending::Acknowledge => Pending::Acknowledge,
            Pending::Usage => Pending::Usage,
            Pending::Write => Pending::Write,
            Pending::SetAttrOpen { path, change, fallback } => Pending::SetAttrOpen {
                path: path@,
                change,
                fallback,
            },
            Pending::SetAttrChange { path, change, fd, close } => Pending::SetAttrChange {
                path: path@,
                change,
                fd,
                close,
            },
            Pending::SetAttrPath { path, change } => Pending::SetAttrPath { path: path@, change },
            Pending::SetAttrStatus { path, close } => Pending::SetAttrStatus { path: path@, close },
            Pending::CreateOpen { child } => Pending::CreateOpen { child: child@ },
            Pending::CreateStatus { child, fd } => Pending::CreateStatus { child: child@, fd },
            Pending::Remove { child } => Pending::Remove { child: child@ },
            Pending::Make { path } => Pending::Make { path: path@ },
            Pending::MakeStatus { path } => Pending::MakeStatus { path: path@ },
            Pending::Rename { old_path, new_path, exchange } => Pending::Rename {
                old_path: old_path@,
                new_path: new_path@,
                exchange,
            },
        }
    }
}

impl View for Step<Vec<u8>, String, Vec<DirItem<Vec<u8>>>> {
    type V = Step<Seq<u8>, Seq<char>, Seq<DirItem<Seq<u8>>>>;

    open spec fn view(&self) -> Step<Seq<u8>, Seq<char>, Seq<DirItem<Seq<u8>>>> {
        match *self {
            Step::Call { call, next } => Step::Call { call: call@, next: next@ },
            Step::Finish { reply, close } => Step::Finish { reply: reply@, close },
        }
    }
}

/// Whether the size of an intercepted file with these snippets is a number that can be
/// reported.
pub open spec fn inflated_size_fits(st: Stat, rows: Seq<Seq<char>>) -> bool {
    provider::snippet_text(rows).len() > 0 ==> (st.st_size as u64) + 1 + provider::snippet_text(
        rows,
    ).len() <= u64::MAX
}

/// Whether an outcome can come from the call that a request waits for: it is of the kind
/// that the call gives, a read gives no more than was asked for, and the numbers that are
/// reported on can be reported.
pub open spec fn accepts(pending: FsPendingView, outcome: FsOutcomeView) -> bool {
    match pending {
        Pending::Lookup { .. }
        | Pending::GetAttr { .. }
        | Pending::SetAttrStatus { .. }
        | Pending::CreateStatus { .. }
        | Pending::MakeStatus { .. } => match outcome {
            Outcome::Failure(_) => true,
            Outcome::Status(st) => attr::times_fit(st),
            _ => false,
        },
        Pending::Describe { st, .. } => match outcome {
            Outcome::Unavailable => attr::times_fit(st),
            Outcome::Rows(rows) => attr::times_fit(st) && inflated_size_fits(st, rows),
            _ => false,
        },
        Pending::OpenDir
        | Pending::Open
        | Pending::SetAttrOpen { .. }
        | Pending::CreateOpen { .. } => outcome is Failure || outcome is Descriptor,
        Pending::ReadDir { .. } => outcome is Failure || outcome is Entries,
        Pending::PassData => outcome is Failure || outcome is Data,
        Pending::ReadStatus { .. } => outcome is Failure || outcome is Status,
        Pending::ReadContent { real_size, content, .. } => match outcome {
            Outcome::Failure(_) => true,
            Outcome::Data(data) => content.len() + data.len() <= real_size,
            _ => false,
        },
        Pending::ReadExtra { .. } => outcome is Unavailable || outcome is Rows,
        Pending::Acknowledge
        | Pending::SetAttrChange { .. }
        | Pending::SetAttrPath { .. }
        | Pending::Remove { .. }
        | Pending::Make { .. }
        | Pending::Rename { .. } => outcome is Failure || outcome is Success,
        Pending::Usage => outcome is Failure || outcome is Filesystem,
        Pending::Write => outcome is Failure || outcome is Count,
    }
}

/// Whether the size of an intercepted file with these snippets can be reported.
fn can_report_size(st: &Stat, rows: &Vec<String>) -> (r: bool)
    ensures
        r == inflated_size_fits(*st, provider::texts(rows@)),
{
    let real_size: u64 = #[verifier::truncate] (st.st_size as u64);
    let len: u64 = SqliteProvider::extra_content(rows).len() as u64;
    len == 0 || (real_size < u64::MAX && len <= u64::MAX - 1 - real_size)
}

impl Pending<Vec<u8>> {
    /// Whether an outcome can come from the call that a request waits for.
    pub fn accepts(&self, outcome: &FsOutcome) -> (r: bool)
        ensures
            r == accepts(self@, outcome@),
    {
        match self {
            Pending::Lookup { .. }
            | Pending::GetAttr { .. }
            | Pending::SetAttrStatus { .. }
            | Pending::CreateStatus { .. }
            | Pending::MakeStatus { .. } => match outcome {
                Outcome::Failure(_) => true,
                Outcome::Status(st) => attr::can_tell_times(st),
                _ => false,
            },
            Pending::Describe { st, .. } => match outcome {
                Outcome::Unavailable => attr::can_tell_times(st),
                Outcome::Rows(rows) => attr::can_tell_times(st) && can_report_size(st, rows),
                _ => false,
            },
            Pending::OpenDir
            | Pending::Open
            | Pending::SetAttrOpen { .. }
            | Pending::CreateOpen { .. } => {
                matches!(outcome, Outcome::Failure(_) | Outcome::Descriptor(_))
            },
            Pending::ReadDir { .. } => {
                matches!(outcome, Outcome::Failure(_) | Outcome::Entries(_))
            },
            Pending::PassData => matches!(outcome, Outcome::Failure(_) | Outcome::Data(_)),
            Pending::ReadStatus { .. } => {
                matches!(outcome, Outcome::Failure(_) | Outcome::Status(_))
            },
            Pending::ReadContent { real_size, content, .. } => match outcome {
                Outcome::Failure(_) => true,
                Outcome::Data(data) => content.len() as u64 <= *real_size && data.len() as u64
                    <= *real_size - content.len() as u64,
                _ => false,
            },
            Pending::ReadExtra { .. } => {
                matches!(outcome, Outcome::Unavailable | Outcome::Rows(_))
            },
            Pending::Acknowledge
            | Pending::SetAttrChange { .. }
            | Pending::SetAttrPath { .. }
            | Pending::Remove { .. }
            | Pending::Make { .. }
            | Pending::Rename { .. } => matches!(outcome, Outcome::Failure(_) | Outcome::Success),
            Pending::Usage => matches!(outcome, Outcome::Failure(_) | Outcome::Filesystem(_)),
            Pending::Write => matches!(outcome, Outcome::Failure(_) | Outcome::Count(_)),
        }
    }
}

/// The entries of a directory keep their number, order and contents in their views.
pub proof fn law_entries_are_seen_one_by_one(
    entries: Seq<Option<RawEntry<Vec<u8>>>>,
    items: Seq<DirItem<Vec<u8>>>,
    i: int,
)
    ensures
        raw_entries(entries).len() == entries.len(),
        0 <= i < entries.len() ==> {
            &&& raw_entries(entries)[i] is Some <==> entries[i] is Some
            &&& entries[i] matches Some(e) ==> raw_entries(entries)[i] == Some(
                RawEntry { ino: e.ino, name: e.name@, kind: e.kind },
            )
        },
        dir_items(items).len() == items.len(),
        0 <= i < items.len() ==> dir_items(items)[i] == (DirItem {
            ino: items[i].ino,
            next: items[i].next,
            kind: items[i].kind,
            name: items[i].name@,
        }),
{
}

/// A call that looks like another one is that call: its numbers are the same, and so are the
/// bytes of its paths and of what it writes.
pub proof fn law_calls_are_seen_as_they_are(call: FsCall, seen: FsCallView)
    requires
        call@ == seen,
    ensures
        match call {
            Call::StatAt { dir, path } => seen == (FsCallView::StatAt { dir, path: path@ }),
            Call::OpenDirAt { dir, path } => seen == (FsCallView::OpenDirAt { dir, path: path@ }),
            Call::OpenAt { dir, path, flags } => seen == (FsCallView::OpenAt {
                dir,
                path: path@,
                flags,
            }),
            Call::OpenNoFollowAt { dir, path, flags } => seen == (FsCallView::OpenNoFollowAt {
                dir,
                path: path@,
                flags,
            }),
            Call::CreateAt { dir, path, flags, mode } => seen == (FsCallView::CreateAt {
                dir,
                path: path@,
                flags,
                mode,
            }),
            Call::Fstat { fd } => seen == (FsCallView::Fstat { fd }),
            Call::Fstatvfs { fd } => seen == (FsCallView::Fstatvfs { fd }),
            Call::ListDir { fd } => seen == (FsCallView::ListDir { fd }),
            Call::Pread { fd, len, offset } => seen == (FsCallView::Pread { fd, len, offset }),
            Call::Pwrite { fd, data, offset } => seen == (FsCallView::Pwrite {
                fd,
                data: data@,
                offset,
            }),
            Call::AccessAt { dir, path, mask } => seen == (FsCallView::AccessAt {
                dir,
                path: path@,
                mask,
            }),
            Call::ReadlinkAt { dir, path, len } => seen == (FsCallView::ReadlinkAt {
                dir,
                path: path@,
                len,
            }),
            Call::Fchmod { fd, mode } => seen == (FsCallView::Fchmod { fd, mode }),
            Call::Fchown { fd, uid, gid } => seen == (FsCallView::Fchown { fd, uid, gid }),
            Call::Ftruncate { fd, size } => seen == (FsCallView::Ftruncate { fd, size }),
            Call::Futimens { fd, atime, mtime } => seen == (FsCallView::Futimens {
                fd,
                atime,
                mtime,
            }),
            Call::FchmodAt { dir, path, mode } => seen == (FsCallView::FchmodAt {
                dir,
                path: path@,
                mode,
            }),
            Call::FchownAt { dir, path, uid, gid } => seen == (FsCallView::FchownAt {
                dir,
                path: path@,
                uid,
                gid,
            }),
            Call::UtimensAt { dir, path, atime, mtime } => seen == (FsCallView::UtimensAt {
                dir,
                path: path@,
                atime,
                mtime,
            }),
            Call::UnlinkAt { dir, path, directory } => seen == (FsCallView::UnlinkAt {
                dir,
                path: path@,
                directory,
            }),
            Call::MkdirAt { dir, path, mode } => seen == (FsCallView::MkdirAt {
                dir,
                path: path@,
                mode,
            }),
            Call::RenameAt { dir, old_path, new_path, flags } => seen == (FsCallView::RenameAt {
                dir,
                old_path: old_path@,
                new_path: new_path@,
                flags,
            }),
            Call::LinkAt { dir, old_path, new_path } => seen == (FsCallView::LinkAt {
                dir,
                old_path: old_path@,
                new_path: new_path@,
            }),
            Call::SymlinkAt { target, dir, path } => seen == (FsCallView::SymlinkAt {
                target: target@,
                dir,
                path: path@,
            }),
            Call::Fsync { fd, data_only } => seen == (FsCallView::Fsync { fd, data_only }),
            Call::Query { db, filename } => seen == (FsCallView::Query {
                db: db@,
                filename: filename@,
            }),
        },
{
}

/// A step, a reply and an outcome are seen as they are: their numbers are the same, and so
/// are their bytes, their entries and their texts.
pub proof fn law_steps_are_seen_as_they_are(step: FsStep, outcome: FsOutcome)
    ensures
        match step {
            Step::Call { call, next } => step@ == (FsStepView::Call { call: call@, next: next@ }),
            Step::Finish { reply, close } => step@ == (FsStepView::Finish {
                reply: match reply {
                    Reply::Failure(errno) => Reply::Failure(errno),
                    Reply::Empty => Reply::Empty,
                    Reply::Data(data) => Reply::Data(data@),
                    Reply::Written(count) => Reply::Written(count),
                    Reply::Opened { fh } => Reply::Opened { fh },
                    Reply::Entry { ttl, attr } => Reply::Entry { ttl, attr },
                    Reply::Attr { ttl, attr } => Reply::Attr { ttl, attr },
                    Reply::Created { ttl, attr, fh } => Reply::Created { ttl, attr, fh },
                    Reply::Directory(items) => Reply::Directory(dir_items(items@)),
                    Reply::Usage(usage) => Reply::Usage(usage),
                },
                close,
            }),
        },
        outcome matches Outcome::Failure(errno) ==> outcome@ == FsOutcomeView::Failure(errno),
        outcome is Success ==> outcome@ is Success,
        outcome matches Outcome::Descriptor(fd) ==> outcome@ == FsOutcomeView::Descriptor(fd),
        outcome matches Outcome::Status(st) ==> outcome@ == FsOutcomeView::Status(st),
        outcome matches Outcome::Filesystem(st) ==> outcome@ == FsOutcomeView::Filesystem(st),
        outcome matches Outcome::Data(data) ==> outcome@ == FsOutcomeView::Data(data@),
        outcome matches Outcome::Count(count) ==> outcome@ == FsOutcomeView::Count(count),
        outcome matches Outcome::Entries(entries) ==> outcome@ == FsOutcomeView::Entries(
            raw_entries(entries@),
        ),
        outcome matches Outcome::Rows(rows) ==> outcome@ == FsOutcomeView::Rows(
            provider::texts(rows@),
        ),
        outcome is Unavailable ==> outcome@ is Unavailable,
{
}

/// A size can be reported unless the file, one line feed and the snippets are longer than a
/// number can tell.
pub proof fn law_sizes_can_be_reported(st: Stat, rows: Seq<Seq<char>>)
    ensures
        inflated_size_fits(st, rows) <==> provider::snippet_text(rows).len() == 0 || (
        st.st_size as u64) + provider::snippet_text(rows).len() < u64::MAX,
{
}

/// Whatever the call of a request can give is accepted: an error of any system call; a
/// descriptor of any number where a file is opened; a status with times that can be told;
/// any entries, any bytes as far as they were asked for, any count, and any snippets as far
/// as the size can be reported.
pub proof fn law_what_a_call_gives_is_accepted(
    pending: FsPendingView,
    errno: i32,
    fd: i32,
    st: Stat,
    vfs: StatVfs,
    data: Seq<u8>,
    count: u64,
    entries: Seq<Option<RawEntry<Seq<u8>>>>,
    rows: Seq<Seq<char>>,
)
    ensures
        accepts(pending, Outcome::Failure(errno)) <==> !(pending is Describe)
            && !(pending is ReadExtra),
        accepts(pending, Outcome::Success) <==> pending is Acknowledge || pending is SetAttrChange
            || pending is SetAttrPath || pending is Remove || pending is Make || pending is Rename,
        accepts(pending, Outcome::Descriptor(fd)) <==> pending is OpenDir || pending is Open
            || pending is SetAttrOpen || pending is CreateOpen,
        accepts(pending, Outcome::Status(st)) <==> pending is ReadStatus || (attr::times_fit(st) && (
        pending is Lookup || pending is GetAttr || pending is SetAttrStatus
            || pending is CreateStatus || pending is MakeStatus)),
        accepts(pending, Outcome::Filesystem(vfs)) <==> pending is Usage,
        accepts(pending, Outcome::Data(data)) <==> pending is PassData || match pending {
            Pending::ReadContent { real_size, content, .. } => content.len() + data.len()
                <= real_size,
            _ => false,
        },
        accepts(pending, Outcome::Count(count)) <==> pending is Write,
        accepts(pending, Outcome::Entries(entries)) <==> pending is ReadDir,
        accepts(pending, Outcome::Rows(rows)) <==> pending is ReadExtra || match pending {
            Pending::Describe { st: told, .. } => attr::times_fit(told) && inflated_size_fits(
                told,
                rows,
            ),
            _ => false,
        },
        accepts(pending, Outcome::Unavailable) <==> pending is ReadExtra || match pending {
            Pending::Describe { st: told, .. } => attr::times_fit(told),
            _ => false,
        },
{
}

} // verus!
