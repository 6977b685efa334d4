//! What the filesystem keeps, and how each request is to be answered.

use vstd::prelude::*;

use crate::attr;
use crate::attr::{FileAttr, FileType, Stat, TimeOrNow};
use crate::inode_map::InodeTable;
use crate::intercept;
use crate::path;
use crate::path::DOT;
use crate::protocol::{
    AttrChange, Call, DirItem, Form, FsOutcomeView, FsPendingView, FsReplyView, FsStepView,
    Outcome, Pending, RawEntry, Reply, Step,
};
use crate::provider;

verus! {

/// No such file or directory.
pub const ENOENT: i32 = 2;

/// Input/output error.
pub const EIO: i32 = 5;

/// Bad file descriptor.
pub const EBADF: i32 = 9;

pub const O_WRONLY: i32 = 1;
pub const O_RDWR: i32 = 2;
pub const O_CREAT: i32 = 0o100;
pub const O_TRUNC: i32 = 0o1000;
pub const O_APPEND: i32 = 0o2000;

/// The flag of a rename that exchanges the two entries.
pub const RENAME_EXCHANGE: u32 = 2;

/// The longest target of a symbolic link that is read.
pub const PATH_MAX: u64 = 4096;

/// How many seconds the kernel may keep what it was told of a file.
pub const TTL_NORMAL: u64 = 1;

/// How many seconds the kernel may keep what it was told of an intercepted file.
pub const TTL_INTERCEPTED: u64 = 0;

/// The state of the filesystem: the directory that it proxies, the database and the
/// patterns for interception, the inode table, and the open files and directories by
/// handle.
pub struct FsState {
    pub root: i32,
    pub db: Seq<u8>,
    pub patterns: Seq<Seq<char>>,
    pub inodes: InodeTable,
    pub files: Map<u64, i32>,
    pub dirs: Map<u64, i32>,
    pub next_fh: u64,
}

/// The reply that ends a request with nothing to close.
pub open spec fn replied(reply: FsReplyView) -> FsStepView {
    Step::Finish { reply, close: None }
}

/// The reply that ends a request with an error.
pub open spec fn failed(errno: i32) -> FsStepView {
    replied(Reply::Failure(errno))
}

/// The handle behind `fh`; the numbers start again when they are used up.
pub open spec fn handle_after(fh: u64) -> u64 {
    if fh == u64::MAX {
        0
    } else {
        (fh + 1) as u64
    }
}

/// The flags with which a file is opened: those of the request, but for the ones that
/// create, truncate or append.
pub open spec fn passed_flags(flags: i32) -> i32 {
    flags & !(O_APPEND | O_TRUNC | O_CREAT)
}

/// Whether a rename with these flags exchanges the two entries.
pub open spec fn exchanges(flags: u32) -> bool {
    flags & RENAME_EXCHANGE != 0
}

/// The part of `full` that a read of `size` bytes at `offset` gives.
pub open spec fn window(full: Seq<u8>, offset: u64, size: u32) -> Seq<u8> {
    let start = if offset < full.len() {
        offset as int
    } else {
        full.len() as int
    };
    let end = if start + size < full.len() {
        start + size
    } else {
        full.len() as int
    };
    full.subrange(start, end)
}

/// The attributes of a file with the extra content that its readers see.
pub open spec fn attr_seen(st: Stat, extra: Option<Seq<u8>>) -> FileAttr {
    let real_size = st.st_size as u64;
    attr::attr_of(st, intercept::inflated(real_size, extra).unwrap_or(real_size as int) as u64)
}

/// The path that an entry of the directory `parent` stands for.
pub open spec fn child_of(parent: Seq<u8>, name: Seq<u8>) -> Seq<u8> {
    if name == seq![DOT] {
        parent
    } else if name == seq![DOT, DOT] {
        path::parent_of(parent).unwrap_or(seq![DOT])
    } else {
        path::joined(parent, name)
    }
}

/// Whether an entry is listed: it could be read and has an inode number.
pub open spec fn is_listed(entry: Option<RawEntry<Seq<u8>>>) -> bool {
    entry matches Some(e) && e.ino != 0
}

/// The inode table after the entries of the directory `parent` were seen.
pub open spec fn inodes_after_listing(
    table: InodeTable,
    parent: Seq<u8>,
    entries: Seq<Option<RawEntry<Seq<u8>>>>,
) -> InodeTable
    decreases entries.len(),
{
    if entries.len() == 0 {
        table
    } else {
        let before = inodes_after_listing(table, parent, entries.drop_last());
        if is_listed(entries.last()) {
            let entry = entries.last().unwrap();
            before.inserted(child_of(parent, entry.name), entry.ino)
        } else {
            before
        }
    }
}

/// The entries of a directory as they are listed, each with its place in the list.
pub open spec fn listing(entries: Seq<Option<RawEntry<Seq<u8>>>>) -> Seq<DirItem<Seq<u8>>>
    decreases entries.len(),
{
    if entries.len() == 0 {
        Seq::empty()
    } else {
        let before = listing(entries.drop_last());
        if is_listed(entries.last()) {
            let entry = entries.last().unwrap();
            before.push(
                DirItem {
                    ino: entry.ino,
                    next: (before.len() + 1) as u64,
                    kind: entry.kind.unwrap_or(FileType::RegularFile),
                    name: entry.name,
                },
            )
        } else {
            before
        }
    }
}

/// What is left of a list from `offset` on.
pub open spec fn from_offset(items: Seq<DirItem<Seq<u8>>>, offset: u64) -> Seq<
    DirItem<Seq<u8>>,
> {
    if offset < items.len() {
        items.skip(offset as int)
    } else {
        Seq::empty()
    }
}

/// The changes that a request for new attributes asks for.
pub open spec fn requested_change(
    mode: Option<u32>,
    uid: Option<u32>,
    gid: Option<u32>,
    size: Option<u64>,
    atime: Option<TimeOrNow>,
    mtime: Option<TimeOrNow>,
) -> AttrChange {
    AttrChange {
        mode,
        owner: if uid is Some || gid is Some {
            Some((uid.unwrap_or(u32::MAX), gid.unwrap_or(u32::MAX)))
        } else {
            None
        },
        size: match size {
            Some(n) => Some(n as i64),
            None => None,
        },
        times: if atime is Some || mtime is Some {
            Some((attr::timespec_of(atime), attr::timespec_of(mtime)))
        } else {
            None
        },
    }
}

impl FsState {
    /// Whether a file at this path is intercepted.
    pub open spec fn intercepts(self, p: Seq<u8>) -> bool {
        intercept::some_glob_matches(self.patterns, path::file_name_of(p))
    }

    /// How long the kernel may keep what it is told of a file.
    pub open spec fn ttl_for(self, p: Seq<u8>) -> u64 {
        if self.intercepts(p) {
            TTL_INTERCEPTED
        } else {
            TTL_NORMAL
        }
    }

    /// The query for the snippets of a file.
    pub open spec fn query(self, p: Seq<u8>, next: FsPendingView) -> FsStepView {
        Step::Call { call: Call::Query { db: self.db, filename: provider::snippet_name(p) }, next }
    }

    /// The call for the status of a file.
    pub open spec fn stat_path(self, p: Seq<u8>, next: FsPendingView) -> FsStepView {
        Step::Call { call: Call::StatAt { dir: self.root, path: path::c_path_of(p) }, next }
    }

    /// The state after a new file was opened, its handle, and a descriptor that lost its
    /// handle to it.
    pub open spec fn with_file(self, fd: i32) -> (FsState, u64, Option<i32>) {
        let fh = self.next_fh;
        (
            FsState {
                files: self.files.insert(fh, fd),
                next_fh: handle_after(fh),
                ..self
            },
            fh,
            if self.files.contains_key(fh) {
                Some(self.files[fh])
            } else {
                None
            },
        )
    }

    /// The reply that reports attributes.
    pub open spec fn reported(self, attr: FileAttr, form: Form) -> (FsState, FsStepView) {
        match form {
            Form::Attr { ttl, close } => (
                self,
                Step::Finish { reply: Reply::Attr { ttl, attr }, close },
            ),
            Form::Entry { ttl } => (self, replied(Reply::Entry { ttl, attr })),
            Form::Created { ttl, fd } => {
                let (state, fh, close) = self.with_file(fd);
                (state, Step::Finish { reply: Reply::Created { ttl, attr, fh }, close })
            },
        }
    }

    /// How the attributes of a file are reported: at once, but for an intercepted regular
    /// file, whose snippets bear on its size.
    pub open spec fn described(self, p: Seq<u8>, st: Stat, form: Form) -> (FsState, FsStepView) {
        if attr::file_type_of(st.st_mode) == FileType::RegularFile && self.intercepts(p) {
            (self, self.query(p, Pending::Describe { st, form }))
        } else {
            self.reported(attr_seen(st, None), form)
        }
    }

    /// The state after the path `p` was seen with an inode number.
    pub open spec fn with_inode(self, p: Seq<u8>, ino: u64) -> FsState {
        FsState { inodes: self.inodes.inserted(p, ino), ..self }
    }

    pub open spec fn lookup(self, parent: u64, name: Seq<u8>) -> FsStepView {
        match self.inodes.path_of(parent) {
            None => failed(ENOENT),
            Some(p) => {
                let child = path::joined(p, name);
                self.stat_path(child, Pending::Lookup { child })
            },
        }
    }

    pub open spec fn getattr(self, ino: u64) -> FsStepView {
        match self.inodes.path_of(ino) {
            None => failed(ENOENT),
            Some(p) => self.stat_path(p, Pending::GetAttr { path: p }),
        }
    }

    pub open spec fn opendir(self, ino: u64) -> FsStepView {
        match self.inodes.path_of(ino) {
            None => failed(ENOENT),
            Some(p) => Step::Call {
                call: Call::OpenDirAt { dir: self.root, path: path::c_path_of(p) },
                next: Pending::OpenDir,
            },
        }
    }

    pub open spec fn readdir(self, ino: u64, fh: u64, offset: u64) -> FsStepView {
        match self.inodes.path_of(ino) {
            None => failed(ENOENT),
            Some(p) => if self.dirs.contains_key(fh) {
                Step::Call {
                    call: Call::ListDir { fd: self.dirs[fh] },
                    next: Pending::ReadDir { parent: p, offset },
                }
            } else {
                failed(EBADF)
            },
        }
    }

    pub open spec fn releasedir(self, fh: u64) -> (FsState, FsStepView) {
        (
            FsState { dirs: self.dirs.remove(fh), ..self },
            Step::Finish {
                reply: Reply::Empty,
                close: if self.dirs.contains_key(fh) {
                    Some(self.dirs[fh])
                } else {
                    None
                },
            },
        )
    }

    pub open spec fn open(self, ino: u64, flags: i32) -> FsStepView {
        match self.inodes.path_of(ino) {
            None => failed(ENOENT),
            Some(p) => Step::Call {
                call: Call::OpenAt {
                    dir: self.root,
                    path: path::c_path_of(p),
                    flags: passed_flags(flags),
                },
                next: Pending::Open,
            },
        }
    }

    pub open spec fn read(self, ino: u64, fh: u64, offset: u64, size: u32) -> FsStepView {
        match self.inodes.path_of(ino) {
            None => failed(ENOENT),
            Some(p) => if !self.files.contains_key(fh) {
                failed(EBADF)
            } else if self.intercepts(p) {
                Step::Call {
                    call: Call::Fstat { fd: self.files[fh] },
                    next: Pending::ReadStatus { path: p, fd: self.files[fh], offset, size },
                }
            } else {
                Step::Call {
                    call: Call::Pread {
                        fd: self.files[fh],
                        len: size as u64,
                        offset: offset as i64,
                    },
                    next: Pending::PassData,
                }
            },
        }
    }

    /// How the reading of an intercepted file goes on when `content` has been read of its
    /// `real_size` bytes: with the rest of it, then with its snippets.
    pub open spec fn read_on(
        self,
        p: Seq<u8>,
        fd: i32,
        offset: u64,
        size: u32,
        real_size: u64,
        content: Seq<u8>,
    ) -> FsStepView {
        if content.len() < real_size {
            Step::Call {
                call: Call::Pread {
                    fd,
                    len: (real_size - content.len()) as u64,
                    offset: content.len() as i64,
                },
                next: Pending::ReadContent { path: p, fd, offset, size, real_size, content },
            }
        } else {
            self.query(p, Pending::ReadExtra { offset, size, content })
        }
    }

    pub open spec fn release(self, fh: u64) -> (FsState, FsStepView) {
        (
            FsState { files: self.files.remove(fh), ..self },
            Step::Finish {
                reply: Reply::Empty,
                close: if self.files.contains_key(fh) {
                    Some(self.files[fh])
                } else {
                    None
                },
            },
        )
    }

    pub open spec fn access(self, ino: u64, mask: i32) -> FsStepView {
        match self.inodes.path_of(ino) {
            None => failed(ENOENT),
            Some(p) => Step::Call {
                call: Call::AccessAt { dir: self.root, path: path::c_path_of(p), mask },
                next: Pending::Acknowledge,
            },
        }
    }

    pub open spec fn readlink(self, ino: u64) -> FsStepView {
        match self.inodes.path_of(ino) {
            None => failed(ENOENT),
            Some(p) => Step::Call {
                call: Call::ReadlinkAt {
                    dir: self.root,
                    path: path::c_path_of(p),
                    len: PATH_MAX,
                },
                next: Pending::PassData,
            },
        }
    }

    pub open spec fn statfs(self) -> FsStepView {
        Step::Call { call: Call::Fstatvfs { fd: self.root }, next: Pending::Usage }
    }

    pub open spec fn write(self, fh: u64, offset: u64, data: Seq<u8>) -> FsStepView {
        if self.files.contains_key(fh) {
            Step::Call {
                call: Call::Pwrite { fd: self.files[fh], data, offset: offset as i64 },
                next: Pending::Write,
            }
        } else {
            failed(EBADF)
        }
    }

    pub open spec fn setattr(self, ino: u64, change: AttrChange, fh: Option<u64>) -> FsStepView {
        match self.inodes.path_of(ino) {
            None => failed(ENOENT),
            Some(p) => match fh {
                Some(fh) => if self.files.contains_key(fh) {
                    self.change_on(p, change, self.files[fh], None)
                } else {
                    failed(EBADF)
                },
                None => self.open_to_change(p, change, false),
            },
        }
    }

    /// The call that opens a file whose attributes are to be changed, first for reading and
    /// writing, then for writing only. A symbolic link is not opened in its target's place.
    pub open spec fn open_to_change(
        self,
        p: Seq<u8>,
        change: AttrChange,
        fallback: bool,
    ) -> FsStepView {
        Step::Call {
            call: Call::OpenNoFollowAt {
                dir: self.root,
                path: path::c_path_of(p),
                flags: if fallback {
                    O_WRONLY
                } else {
                    O_RDWR
                },
            },
            next: Pending::SetAttrOpen { path: p, change, fallback },
        }
    }

    /// How a change of attributes goes on where the file cannot be opened: mode, owner and
    /// times in this order by its path, as far as they are to be changed, and then the
    /// status of the file. A new size takes a descriptor, and is not among them.
    pub open spec fn change_path_on(self, p: Seq<u8>, change: AttrChange) -> FsStepView {
        if let Some(mode) = change.mode {
            let rest = AttrChange { mode: None, ..change };
            Step::Call {
                call: Call::FchmodAt { dir: self.root, path: path::c_path_of(p), mode },
                next: Pending::SetAttrPath { path: p, change: rest },
            }
        } else if let Some((uid, gid)) = change.owner {
            let rest = AttrChange { owner: None, ..change };
            Step::Call {
                call: Call::FchownAt { dir: self.root, path: path::c_path_of(p), uid, gid },
                next: Pending::SetAttrPath { path: p, change: rest },
            }
        } else if let Some((atime, mtime)) = change.times {
            let rest = AttrChange { times: None, ..change };
            Step::Call {
                call: Call::UtimensAt { dir: self.root, path: path::c_path_of(p), atime, mtime },
                next: Pending::SetAttrPath { path: p, change: rest },
            }
        } else {
            self.stat_path(p, Pending::SetAttrStatus { path: p, close: None })
        }
    }

    /// How a change of attributes goes on: mode, owner, size and times in this order, as
    /// far as they are to be changed, and then the status of the file.
    pub open spec fn change_on(
        self,
        p: Seq<u8>,
        change: AttrChange,
        fd: i32,
        close: Option<i32>,
    ) -> FsStepView {
        if let Some(mode) = change.mode {
            let rest = AttrChange { mode: None, ..change };
            Step::Call {
                call: Call::Fchmod { fd, mode },
                next: Pending::SetAttrChange { path: p, change: rest, fd, close },
            }
        } else if let Some((uid, gid)) = change.owner {
            let rest = AttrChange { owner: None, ..change };
            Step::Call {
                call: Call::Fchown { fd, uid, gid },
                next: Pending::SetAttrChange { path: p, change: rest, fd, close },
            }
        } else if let Some(size) = change.size {
            let rest = AttrChange { size: None, ..change };
            Step::Call {
                call: Call::Ftruncate { fd, size },
                next: Pending::SetAttrChange { path: p, change: rest, fd, close },
            }
        } else if let Some((atime, mtime)) = change.times {
            let rest = AttrChange { times: None, ..change };
            Step::Call {
                call: Call::Futimens { fd, atime, mtime },
                next: Pending::SetAttrChange { path: p, change: rest, fd, close },
            }
        } else {
            self.stat_path(p, Pending::SetAttrStatus { path: p, close })
        }
    }

    pub open spec fn create(self, parent: u64, name: Seq<u8>, mode: u32, flags: i32) -> FsStepView {
        match self.inodes.path_of(parent) {
            None => failed(ENOENT),
            Some(p) => {
                let child = path::joined(p, name);
                Step::Call {
                    call: Call::CreateAt {
                        dir: self.root,
                        path: path::c_path_of(child),
                        flags: flags | O_CREAT,
                        mode,
                    },
                    next: Pending::CreateOpen { child },
                }
            },
        }
    }

    /// The deletion of an entry, of a directory where `directory` holds.
    pub open spec fn remove(self, parent: u64, name: Seq<u8>, directory: bool) -> FsStepView {
        match self.inodes.path_of(parent) {
            None => failed(ENOENT),
            Some(p) => {
                let child = path::joined(p, name);
                Step::Call {
                    call: Call::UnlinkAt {
                        dir: self.root,
                        path: path::c_path_of(child),
                        directory,
                    },
                    next: Pending::Remove { child },
                }
            },
        }
    }

    pub open spec fn mkdir(self, parent: u64, name: Seq<u8>, mode: u32) -> FsStepView {
        match self.inodes.path_of(parent) {
            None => failed(ENOENT),
            Some(p) => {
                let child = path::joined(p, name);
                Step::Call {
                    call: Call::MkdirAt { dir: self.root, path: path::c_path_of(child), mode },
                    next: Pending::Make { path: child },
                }
            },
        }
    }

    pub open spec fn rename(
        self,
        parent: u64,
        name: Seq<u8>,
        newparent: u64,
        newname: Seq<u8>,
        flags: u32,
    ) -> FsStepView {
        match (self.inodes.path_of(parent), self.inodes.path_of(newparent)) {
            (Some(p), Some(q)) => {
                let old_path = path::joined(p, name);
                let new_path = path::joined(q, newname);
                Step::Call {
                    call: Call::RenameAt {
                        dir: self.root,
                        old_path: path::c_path_of(old_path),
                        new_path: path::c_path_of(new_path),
                        flags,
                    },
                    next: Pending::Rename { old_path, new_path, exchange: exchanges(flags) },
                }
            },
            _ => failed(ENOENT),
        }
    }

    pub open spec fn fsync(self, fh: u64, datasync: bool) -> FsStepView {
        if self.files.contains_key(fh) {
            Step::Call {
                call: Call::Fsync { fd: self.files[fh], data_only: datasync },
                next: Pending::Acknowledge,
            }
        } else {
            failed(EBADF)
        }
    }

    pub open spec fn symlink(self, parent: u64, link_name: Seq<u8>, target: Seq<u8>) -> FsStepView {
        match self.inodes.path_of(parent) {
            None => failed(ENOENT),
            Some(p) => {
                let link = path::joined(p, link_name);
                Step::Call {
                    call: Call::SymlinkAt {
                        target: if target.contains(0u8) {
                            Seq::empty()
                        } else {
                            target
                        },
                        dir: self.root,
                        path: path::c_path_of(link),
                    },
                    next: Pending::Make { path: link },
                }
            },
        }
    }

    pub open spec fn link(self, ino: u64, newparent: u64, newname: Seq<u8>) -> FsStepView {
        match (self.inodes.path_of(ino), self.inodes.path_of(newparent)) {
            (Some(p), Some(q)) => {
                let new_path = path::joined(q, newname);
                Step::Call {
                    call: Call::LinkAt {
                        dir: self.root,
                        old_path: path::c_path_of(p),
                        new_path: path::c_path_of(new_path),
                    },
                    next: Pending::Make { path: new_path },
                }
            },
            _ => failed(ENOENT),
        }
    }

    /// The state and the next step after a request has got the outcome it waited for.
    pub open spec fn resumed(self, pending: FsPendingView, outcome: FsOutcomeView) -> (
        FsState,
        FsStepView,
    ) {
        match (pending, outcome) {
            (Pending::Lookup { child }, Outcome::Status(st)) => {
                let form = Form::Entry { ttl: self.ttl_for(child) };
                self.with_inode(child, st.st_ino).described(child, st, form)
            },
            (Pending::GetAttr { path }, Outcome::Status(st)) => {
                let form = Form::Attr { ttl: self.ttl_for(path), close: None };
                self.described(path, st, form)
            },
            (Pending::Describe { st, form }, Outcome::Rows(rows)) => {
                self.reported(attr_seen(st, Some(provider::snippet_text(rows))), form)
            },
            (Pending::Describe { st, form }, _) => self.reported(attr_seen(st, None), form),
            (Pending::OpenDir, Outcome::Descriptor(fd)) => {
                let fh = self.next_fh;
                (
                    FsState {
                        dirs: self.dirs.insert(fh, fd),
                        next_fh: handle_after(fh),
                        ..self
                    },
                    Step::Finish {
                        reply: Reply::Opened { fh },
                        close: if self.dirs.contains_key(fh) {
                            Some(self.dirs[fh])
                        } else {
                            None
                        },
                    },
                )
            },
            (Pending::ReadDir { parent, offset }, Outcome::Entries(entries)) => (
                FsState {
                    inodes: inodes_after_listing(self.inodes, parent, entries),
                    ..self
                },
                replied(Reply::Directory(from_offset(listing(entries), offset))),
            ),
            (Pending::Open, Outcome::Descriptor(fd)) => {
                let (state, fh, close) = self.with_file(fd);
                (state, Step::Finish { reply: Reply::Opened { fh }, close })
            },
            (Pending::PassData, Outcome::Data(data)) => (self, replied(Reply::Data(data))),
            (Pending::ReadStatus { path, fd, offset, size }, Outcome::Status(st)) => (
                self,
                self.read_on(path, fd, offset, size, st.st_size as u64, Seq::empty()),
            ),
            (
                Pending::ReadContent { path, fd, offset, size, real_size, content },
                Outcome::Data(data),
            ) => (
                self,
                if data.len() > 0 {
                    self.read_on(path, fd, offset, size, real_size, content + data)
                } else {
                    self.query(path, Pending::ReadExtra { offset, size, content })
                },
            ),
            (Pending::ReadContent { path, offset, size, content, .. }, _) => (
                self,
                self.query(path, Pending::ReadExtra { offset, size, content }),
            ),
            (Pending::ReadExtra { offset, size, content }, Outcome::Rows(rows)) => {
                let full = intercept::assembled(content, provider::snippet_text(rows));
                (self, replied(Reply::Data(window(full, offset, size))))
            },
            (Pending::ReadExtra { .. }, _) => (self, failed(EIO)),
            (Pending::Acknowledge, Outcome::Success) => (self, replied(Reply::Empty)),
            (Pending::Usage, Outcome::Filesystem(st)) => (
                self,
                replied(Reply::Usage(attr::usage_of(st))),
            ),
            (Pending::Write, Outcome::Count(count)) => (
                self,
                replied(Reply::Written(count as u32)),
            ),
            (Pending::SetAttrOpen { path, change, .. }, Outcome::Descriptor(fd)) => (
                self,
                self.change_on(path, change, fd, Some(fd)),
            ),
            (Pending::SetAttrOpen { path, change, fallback: false }, _) => (
                self,
                self.open_to_change(path, change, true),
            ),
            (
                Pending::SetAttrOpen { path, change, fallback: true },
                Outcome::Failure(errno),
            ) => (
                self,
                if change.size is None {
                    self.change_path_on(path, change)
                } else {
                    failed(errno)
                },
            ),
            (Pending::SetAttrPath { path, change }, Outcome::Success) => (
                self,
                self.change_path_on(path, change),
            ),
            (Pending::SetAttrChange { path, change, fd, close }, Outcome::Success) => (
                self,
                self.change_on(path, change, fd, close),
            ),
            (Pending::SetAttrChange { close, .. }, Outcome::Failure(errno)) => (
                self,
                Step::Finish { reply: Reply::Failure(errno), close },
            ),
            (Pending::SetAttrStatus { path, close }, Outcome::Status(st)) => {
                let form = Form::Attr { ttl: self.ttl_for(path), close };
                self.described(path, st, form)
            },
            (Pending::SetAttrStatus { close, .. }, Outcome::Failure(errno)) => (
                self,
                Step::Finish { reply: Reply::Failure(errno), close },
            ),
            (Pending::CreateOpen { child }, Outcome::Descriptor(fd)) => (
                self,
                Step::Call {
                    call: Call::Fstat { fd },
                    next: Pending::CreateStatus { child, fd },
                },
            ),
            (Pending::CreateStatus { child, fd }, Outcome::Status(st)) => {
                let form = Form::Created { ttl: self.ttl_for(child), fd };
                self.with_inode(child, st.st_ino).described(child, st, form)
            },
            (Pending::CreateStatus { fd, .. }, Outcome::Failure(errno)) => (
                self,
                Step::Finish { reply: Reply::Failure(errno), close: Some(fd) },
            ),
            (Pending::Remove { child }, Outcome::Success) => (
                FsState { inodes: self.inodes.removed(child), ..self },
                replied(Reply::Empty),
            ),
            (Pending::Make { path }, Outcome::Success) => (
                self,
                self.stat_path(path, Pending::MakeStatus { path }),
            ),
            (Pending::MakeStatus { path }, Outcome::Status(st)) => {
                let form = Form::Entry { ttl: TTL_NORMAL };
                self.with_inode(path, st.st_ino).described(path, st, form)
            },
            (Pending::Rename { old_path, new_path, exchange }, Outcome::Success) => (
                FsState {
                    inodes: if exchange {
                        self.inodes.exchanged(old_path, new_path)
                    } else {
                        self.inodes.renamed(old_path, new_path)
                    },
                    ..self
                },
                replied(Reply::Empty),
            ),
            (_, Outcome::Failure(errno)) => (self, failed(errno)),
            (_, _) => (self, failed(EIO)),
        }
    }
}

/// A request ends with its reply and nothing to close, an error being a reply as well.
pub proof fn law_a_reply_ends_a_request(reply: FsReplyView, errno: i32)
    ensures
        replied(reply) == (FsStepView::Finish { reply, close: None }),
        failed(errno) == (FsStepView::Finish { reply: Reply::Failure(errno), close: None }),
{
}

/// Handles count up by one, and from the largest number on to the smallest.
pub proof fn law_handles_count_up(fh: u64)
    ensures
        fh < u64::MAX ==> handle_after(fh) == fh + 1,
        fh == u64::MAX ==> handle_after(fh) == 0,
{
}

/// The flags of an open are those of the request but for three: append, truncate and create
/// are never passed on, and every other one is passed on as it is.
pub proof fn law_flags_are_passed_on(flags: i32)
    ensures
        passed_flags(flags) & 0o2000 == 0,
        passed_flags(flags) & 0o1000 == 0,
        passed_flags(flags) & 0o100 == 0,
        passed_flags(flags) & !0o3100i32 == flags & !0o3100i32,
{
    assert((flags & !(0o2000i32 | 0o1000 | 0o100)) & 0o2000 == 0) by (bit_vector);
    assert((flags & !(0o2000i32 | 0o1000 | 0o100)) & 0o1000 == 0) by (bit_vector);
    assert((flags & !(0o2000i32 | 0o1000 | 0o100)) & 0o100 == 0) by (bit_vector);
    assert((flags & !(0o2000i32 | 0o1000 | 0o100)) & !0o3100i32 == flags & !0o3100i32)
        by (bit_vector);
}

/// A rename exchanges the two entries exactly if its second flag is set.
pub proof fn law_second_flag_exchanges(flags: u32)
    ensures
        exchanges(flags) <==> (flags >> 1) & 1 == 1,
{
    assert((flags & 2 != 0) == ((flags >> 1) & 1 == 1)) by (bit_vector);
}

/// A read gives as many bytes as it asks for, as far as there are so many behind its offset,
/// and each of them is the one that stands there.
pub proof fn law_a_read_gives_the_bytes_at_its_offset(
    full: Seq<u8>,
    offset: u64,
    size: u32,
    i: int,
)
    ensures
        offset + size <= full.len() ==> window(full, offset, size).len() == size,
        offset <= full.len() < offset + size ==> window(full, offset, size).len() == full.len()
            - offset,
        full.len() < offset ==> window(full, offset, size).len() == 0,
        0 <= i < window(full, offset, size).len() ==> window(full, offset, size)[i] == full[offset
            + i],
{
}

/// A file is intercepted by its name, and then nothing that is told of it may be kept; what
/// is told of any other file may be kept for a second.
pub proof fn law_only_other_files_are_kept(s: FsState, p: Seq<u8>)
    ensures
        s.intercepts(p) == intercept::some_glob_matches(s.patterns, path::file_name_of(p)),
        s.intercepts(p) ==> s.ttl_for(p) == 0,
        !s.intercepts(p) ==> s.ttl_for(p) == 1,
{
}

/// The size that is told of a file is that of its status. Extra content adds its own length
/// and one byte for the line feed. All else is told as without extra content.
pub proof fn law_extra_content_bears_on_the_size_alone(st: Stat, extra: Seq<u8>)
    ensures
        attr_seen(st, None) == attr::attr_of(st, st.st_size as u64),
        extra.len() == 0 ==> attr_seen(st, Some(extra)) == attr::attr_of(st, st.st_size as u64),
        extra.len() > 0 ==> attr_seen(st, Some(extra)) == attr::attr_of(
            st,
            ((st.st_size as u64) + 1 + extra.len()) as u64,
        ),
{
}

/// The entry `.` of a directory stands for the directory, `..` for what its path leads out of,
/// and any other for the path of the directory with the name behind it.
pub proof fn law_entries_stand_for_paths(parent: Seq<u8>, name: Seq<u8>)
    ensures
        child_of(parent, seq![0x2eu8]) == parent,
        path::parent_of(parent) matches Some(up) ==> child_of(parent, seq![0x2eu8, 0x2eu8]) == up,
        path::parent_of(parent) is None ==> child_of(parent, seq![0x2eu8, 0x2eu8]) == seq![0x2eu8],
        name != seq![0x2eu8] && name != seq![0x2eu8, 0x2eu8] ==> child_of(parent, name)
            == path::joined(parent, name),
{
    assert(seq![0x2eu8, 0x2eu8].len() != seq![0x2eu8].len());
}

/// An entry that could be read and has an inode number.
pub open spec fn is_there(entry: Option<RawEntry<Seq<u8>>>) -> bool {
    match entry {
        Some(e) => e.ino > 0,
        None => false,
    }
}

/// Entries that could all be read, and all have an inode number, are all listed: in the order
/// in which they were read, each with its own inode number, name and type, and with its
/// place in the list. One of unknown type is listed as a regular file.
pub proof fn law_every_entry_is_listed(entries: Seq<Option<RawEntry<Seq<u8>>>>, i: int)
    requires
        entries.len() <= u64::MAX,
        forall|k: int| 0 <= k < entries.len() ==> is_there(#[trigger] entries[k]),
    ensures
        listing(entries).len() == entries.len(),
        0 <= i < entries.len() ==> {
            let entry = entries[i].unwrap();
            &&& listing(entries)[i].ino == entry.ino
            &&& listing(entries)[i].name == entry.name
            &&& listing(entries)[i].next == i + 1
            &&& entry.kind matches Some(kind) ==> listing(entries)[i].kind == kind
            &&& entry.kind is None ==> listing(entries)[i].kind == FileType::RegularFile
        },
    decreases entries.len(),
{
    if entries.len() > 0 {
        let front = entries.drop_last();
        assert forall|k: int| 0 <= k < front.len() implies is_there(#[trigger] front[k]) by {
            assert(front[k] == entries[k]);
        }
        assert(is_there(entries[entries.len() - 1]));
        law_every_entry_is_listed(front, i);
    }
}

/// An entry that could not be read, or has no inode number, leaves no trace: the list and the
/// inode table are the same as without it.
pub proof fn law_missing_entries_leave_no_trace(
    table: InodeTable,
    parent: Seq<u8>,
    front: Seq<Option<RawEntry<Seq<u8>>>>,
    missing: Option<RawEntry<Seq<u8>>>,
    back: Seq<Option<RawEntry<Seq<u8>>>>,
)
    requires
        !is_there(missing),
    ensures
        listing(front + seq![missing] + back) == listing(front + back),
        inodes_after_listing(table, parent, front + seq![missing] + back) == inodes_after_listing(
            table,
            parent,
            front + back,
        ),
    decreases back.len(),
{
    let with = front + seq![missing] + back;
    let without = front + back;
    if back.len() == 0 {
        assert(with.drop_last() =~= front);
        assert(without =~= front);
        assert(with.last() == missing);
    } else {
        assert(with.drop_last() =~= front + seq![missing] + back.drop_last());
        assert(without.drop_last() =~= front + back.drop_last());
        assert(with.last() == back.last());
        assert(without.last() == back.last());
        law_missing_entries_leave_no_trace(table, parent, front, missing, back.drop_last());
    }
}

/// Entries are taken notice of one after the other: the table after some entries and one more
/// is the table after the former, in which the path of the latter was seen with its number.
pub proof fn law_entries_are_taken_notice_of(
    table: InodeTable,
    parent: Seq<u8>,
    entries: Seq<Option<RawEntry<Seq<u8>>>>,
    entry: RawEntry<Seq<u8>>,
)
    requires
        entry.ino > 0,
    ensures
        inodes_after_listing(table, parent, Seq::empty()) == table,
        inodes_after_listing(table, parent, entries.push(Some(entry))) == inodes_after_listing(
            table,
            parent,
            entries,
        ).inserted(child_of(parent, entry.name), entry.ino),
{
    let all = entries.push(Some(entry));
    assert(all.drop_last() =~= entries);
    assert(all.last() == Some(entry));
}

/// From an offset on, a list goes on with the item at that place, and to its end.
pub proof fn law_listing_goes_on_from_an_offset(
    items: Seq<DirItem<Seq<u8>>>,
    offset: u64,
    i: int,
)
    ensures
        offset <= items.len() ==> from_offset(items, offset).len() == items.len() - offset,
        offset > items.len() ==> from_offset(items, offset).len() == 0,
        0 <= i < from_offset(items, offset).len() ==> from_offset(items, offset)[i]
            == items[offset + i],
{
}

/// A request for new attributes asks for each change that it gives, and for no other. Owner
/// and group go together, and so do the two times: the one that is not given stays as it is.
pub proof fn law_each_change_is_asked_for(
    mode: Option<u32>,
    uid: Option<u32>,
    gid: Option<u32>,
    size: Option<u64>,
    atime: Option<TimeOrNow>,
    mtime: Option<TimeOrNow>,
)
    ensures
        ({
            let change = requested_change(mode, uid, gid, size, atime, mtime);
            &&& change.mode == mode
            &&& change.owner is None <==> uid is None && gid is None
            &&& change.owner matches Some((u, g)) ==> {
                &&& uid matches Some(n) ==> u == n
                &&& uid is None ==> u == 0xffff_ffff
                &&& gid matches Some(n) ==> g == n
                &&& gid is None ==> g == 0xffff_ffff
            }
            &&& change.size is None <==> size is None
            &&& size matches Some(n) ==> change.size == Some(n as i64)
            &&& size matches Some(n) ==> n <= i64::MAX ==> change.size.unwrap() == n
            &&& change.times is None <==> atime is None && mtime is None
            &&& change.times matches Some((a, m)) ==> a == attr::timespec_of(atime) && m
                == attr::timespec_of(mtime)
        }),
{
}

} // verus!
