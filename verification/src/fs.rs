//! The passthrough filesystem: how each request is answered, step by step.
//!
//! A request starts with the method that bears its name. Where that asks for a call, the
//! call is made outside and [`ProxyFs::resume`] takes its outcome, until the request
//! finishes with a reply.

use std::collections::HashMap;
use vstd::prelude::*;
use vstd::slice::{slice_subrange, slice_to_vec};

use crate::attr;
use crate::attr::{FileAttr, FileType, Stat, TimeOrNow};
use crate::inode_map::{InodeMap, InodeTable};
use crate::intercept::InterceptMatcher;
use crate::path;
use crate::path::{path_to_cstring, DOT};
use crate::protocol;
use crate::protocol::{
    AttrChange, Call, DirItem, Form, FsCall, FsCallView, FsOutcome, FsPending, FsStep, Outcome,
    Pending, RawEntry, Reply, Step,
};
use crate::provider;
use crate::provider::SqliteProvider;
use crate::state;
use crate::state::{
    FsState, EBADF, EIO, ENOENT, O_APPEND, O_CREAT, O_RDWR, O_TRUNC, O_WRONLY, PATH_MAX,
    RENAME_EXCHANGE, TTL_INTERCEPTED, TTL_NORMAL,
};

verus! {

broadcast use vstd::std_specs::hash::group_hash_axioms;

/// The passthrough filesystem.
pub struct ProxyFs {
    root_fd: i32,
    inodes: InodeMap,
    matcher: InterceptMatcher,
    provider: SqliteProvider,
    handles: HashMap<u64, i32>,
    next_fh: u64,
    dir_handles: HashMap<u64, i32>,
}

impl View for ProxyFs {
    type V = FsState;

    closed spec fn view(&self) -> FsState {
        FsState {
            root: self.root_fd,
            db: self.provider@,
            patterns: self.matcher@,
            inodes: self.inodes@,
            files: self.handles@,
            dirs: self.dir_handles@,
            next_fh: self.next_fh,
        }
    }
}

/// The end of a request with an error.
fn fail(errno: i32) -> (r: FsStep)
    ensures
        r@ == state::failed(errno),
{
    Step::Finish { reply: Reply::Failure(errno), close: None }
}

/// The handle behind `fh`.
fn next_handle(fh: u64) -> (r: u64)
    ensures
        r == state::handle_after(fh),
{
    if fh == u64::MAX {
        0
    } else {
        fh + 1
    }
}

/// The part of `full` that a read of `size` bytes at `offset` gives.
pub fn read_window(full: &Vec<u8>, offset: u64, size: u32) -> (r: Vec<u8>)
    ensures
        r@ == state::window(full@, offset, size),
{
    let len: usize = full.len();
    let start: usize = if offset < len as u64 {
        offset as usize
    } else {
        len
    };
    let end: usize = if (size as u64) < (len - start) as u64 {
        start + size as usize
    } else {
        len
    };
    slice_to_vec(slice_subrange(full.as_slice(), start, end))
}

/// The path that an entry of the directory `parent` stands for.
pub fn child_path(parent: &[u8], name: &[u8]) -> (r: Vec<u8>)
    ensures
        r@ == state::child_of(parent@, name@),
{
    let one = name.len() == 1 && name[0] == DOT;
    let two = name.len() == 2 && name[0] == DOT && name[1] == DOT;
    proof {
        if one {
            assert(name@ =~= seq![DOT]);
        }
        if two {
            assert(name@ =~= seq![DOT, DOT]);
        }
    }
    if one {
        slice_to_vec(parent)
    } else if two {
        match path::parent(parent) {
            Some(p) => p,
            None => {
                let mut dot: Vec<u8> = Vec::new();
                dot.push(DOT);
                assert(dot@ =~= seq![DOT]);
                dot
            },
        }
    } else {
        path::join(parent, name)
    }
}

/// The attributes of a file with the extra content that its readers see, if any.
pub fn stat_to_attr(st: &Stat, extra: Option<&[u8]>) -> (r: FileAttr)
    requires
        attr::times_fit(*st),
        extra matches Some(text) ==> text@.len() > 0 ==> (st.st_size as u64) + 1 + text@.len()
            <= u64::MAX,
    ensures
        extra matches Some(text) ==> r == state::attr_seen(*st, Some(text@)),
        extra is None ==> r == state::attr_seen(*st, None),
{
    let real_size: u64 = #[verifier::truncate] (st.st_size as u64);
    let size: u64 = match InterceptMatcher::inflated_size(real_size, extra) {
        Some(inflated) => inflated,
        None => real_size,
    };
    attr::attr_with_size(st, size)
}

impl ProxyFs {
    /// The inode table is in order.
    pub closed spec fn wf(&self) -> bool {
        self.inodes.wf()
    }

    /// A filesystem over the directory that `root_fd` is open on, in which only the root
    /// is known and nothing is open.
    pub fn new(root_fd: i32, matcher: InterceptMatcher, provider: SqliteProvider) -> (r: Self)
        ensures
            r.wf(),
            r@ == (FsState {
                root: root_fd,
                db: provider@,
                patterns: matcher@,
                inodes: InodeTable::fresh(),
                files: Map::empty(),
                dirs: Map::empty(),
                next_fh: 1,
            }),
    {
        ProxyFs {
            root_fd,
            inodes: InodeMap::new(),
            matcher,
            provider,
            handles: HashMap::new(),
            next_fh: 1,
            dir_handles: HashMap::new(),
        }
    }

    /// A new handle for a file or a directory.
    fn alloc_fh(&mut self) -> (fh: u64)
        ensures
            final(self).wf() == old(self).wf(),
            fh == old(self)@.next_fh,
            final(self)@ == (FsState { next_fh: state::handle_after(fh), ..old(self)@ }),
    {
        let fh: u64 = self.next_fh;
        self.next_fh = next_handle(fh);
        fh
    }

    /// Whether a file at this path is intercepted.
    pub fn intercepts(&self, rel_path: &[u8]) -> (r: bool)
        ensures
            r == self@.intercepts(rel_path@),
    {
        self.matcher.is_intercepted(path::file_name(rel_path))
    }

    /// How many seconds the kernel may keep what it is told of a file.
    pub fn ttl_for(&self, rel_path: &[u8]) -> (r: u64)
        ensures
            r == self@.ttl_for(rel_path@),
    {
        if self.intercepts(rel_path) {
            TTL_INTERCEPTED
        } else {
            TTL_NORMAL
        }
    }

    /// The call for the status of a file.
    fn stat_path(&self, rel: &[u8]) -> (r: FsCall)
        ensures
            r@ == (FsCallView::StatAt { dir: self@.root, path: path::c_path_of(rel@) }),
    {
        Call::StatAt { dir: self.root_fd, path: path_to_cstring(rel) }
    }

    /// The query for the snippets of a file.
    fn query(&self, rel: &[u8]) -> (r: FsCall)
        ensures
            r@ == (FsCallView::Query { db: self@.db, filename: provider::snippet_name(rel@) }),
    {
        Call::Query { db: self.provider.database(), filename: SqliteProvider::filename(rel) }
    }

    /// Looks up an entry of a directory.
    pub fn lookup(&self, parent: u64, name: &[u8]) -> (r: FsStep)
        ensures
            r@ == self@.lookup(parent, name@),
    {
        match self.inodes.get_path(parent) {
            None => fail(ENOENT),
            Some(parent_path) => {
                let child = path::join(parent_path, name);
                Step::Call {
                    call: self.stat_path(child.as_slice()),
                    next: Pending::Lookup { child },
                }
            },
        }
    }

    /// Reports the attributes of a file.
    pub fn getattr(&self, ino: u64) -> (r: FsStep)
        ensures
            r@ == self@.getattr(ino),
    {
        match self.inodes.get_path(ino) {
            None => fail(ENOENT),
            Some(rel_path) => Step::Call {
                call: self.stat_path(rel_path),
                next: Pending::GetAttr { path: slice_to_vec(rel_path) },
            },
        }
    }

    /// Opens a directory.
    pub fn opendir(&self, ino: u64) -> (r: FsStep)
        ensures
            r@ == self@.opendir(ino),
    {
        match self.inodes.get_path(ino) {
            None => fail(ENOENT),
            Some(rel_path) => Step::Call {
                call: Call::OpenDirAt { dir: self.root_fd, path: path_to_cstring(rel_path) },
                next: Pending::OpenDir,
            },
        }
    }

    /// Lists the entries of an open directory from `offset` on.
    pub fn readdir(&self, ino: u64, fh: u64, offset: u64) -> (r: FsStep)
        ensures
            r@ == self@.readdir(ino, fh, offset),
    {
        match self.inodes.get_path(ino) {
            None => fail(ENOENT),
            Some(rel_path) => match self.dir_handles.get(&fh) {
                Some(fd) => Step::Call {
                    call: Call::ListDir { fd: *fd },
                    next: Pending::ReadDir { parent: slice_to_vec(rel_path), offset },
                },
                None => fail(EBADF),
            },
        }
    }

    /// Closes a directory.
    pub fn releasedir(&mut self, fh: u64) -> (r: FsStep)
        requires
            old(self).wf(),
        ensures
            final(self).wf(),
            (final(self)@, r@) == old(self)@.releasedir(fh),
    {
        let close = self.dir_handles.remove(&fh);
        proof {
            assert(self@.dirs =~= old(self)@.dirs.remove(fh));
        }
        Step::Finish { reply: Reply::Empty, close }
    }

    /// Opens a file.
    pub fn open(&self, ino: u64, flags: i32) -> (r: FsStep)
        ensures
            r@ == self@.open(ino, flags),
    {
        match self.inodes.get_path(ino) {
            None => fail(ENOENT),
            Some(rel_path) => Step::Call {
                call: Call::OpenAt {
                    dir: self.root_fd,
                    path: path_to_cstring(rel_path),
                    flags: flags & !(O_APPEND | O_TRUNC | O_CREAT),
                },
                next: Pending::Open,
            },
        }
    }

    /// Reads from an open file.
    pub fn read(&self, ino: u64, fh: u64, offset: u64, size: u32) -> (r: FsStep)
        ensures
            r@ == self@.read(ino, fh, offset, size),
    {
        match self.inodes.get_path(ino) {
            None => fail(ENOENT),
            Some(rel_path) => match self.handles.get(&fh) {
                None => fail(EBADF),
                Some(fd) => {
                    let fd: i32 = *fd;
                    if self.intercepts(rel_path) {
                        let path = slice_to_vec(rel_path);
                        Step::Call {
                            call: Call::Fstat { fd },
                            next: Pending::ReadStatus { path, fd, offset, size },
                        }
                    } else {
                        let at: i64 = #[verifier::truncate] (offset as i64);
                        Step::Call {
                            call: Call::Pread { fd, len: size as u64, offset: at },
                            next: Pending::PassData,
                        }
                    }
                },
            },
        }
    }

    /// Closes a file.
    pub fn release(&mut self, fh: u64) -> (r: FsStep)
        requires
            old(self).wf(),
        ensures
            final(self).wf(),
            (final(self)@, r@) == old(self)@.release(fh),
    {
        let close = self.handles.remove(&fh);
        proof {
            assert(self@.files =~= old(self)@.files.remove(fh));
        }
        Step::Finish { reply: Reply::Empty, close }
    }

    /// Checks the permission to access a file.
    pub fn access(&self, ino: u64, mask: i32) -> (r: FsStep)
        ensures
            r@ == self@.access(ino, mask),
    {
        match self.inodes.get_path(ino) {
            None => fail(ENOENT),
            Some(rel_path) => Step::Call {
                call: Call::AccessAt { dir: self.root_fd, path: path_to_cstring(rel_path), mask },
                next: Pending::Acknowledge,
            },
        }
    }

    /// Reads the target of a symbolic link.
    pub fn readlink(&self, ino: u64) -> (r: FsStep)
        ensures
            r@ == self@.readlink(ino),
    {
        match self.inodes.get_path(ino) {
            None => fail(ENOENT),
            Some(rel_path) => Step::Call {
                call: Call::ReadlinkAt {
                    dir: self.root_fd,
                    path: path_to_cstring(rel_path),
                    len: PATH_MAX,
                },
                next: Pending::PassData,
            },
        }
    }

    /// Reports on the filesystem.
    pub fn statfs(&self) -> (r: FsStep)
        ensures
            r@ == self@.statfs(),
    {
        Step::Call { call: Call::Fstatvfs { fd: self.root_fd }, next: Pending::Usage }
    }

    /// Writes to an open file.
    pub fn write(&self, fh: u64, offset: u64, data: &[u8]) -> (r: FsStep)
        ensures
            r@ == self@.write(fh, offset, data@),
    {
        match self.handles.get(&fh) {
            None => fail(EBADF),
            Some(fd) => {
                let at: i64 = #[verifier::truncate] (offset as i64);
                Step::Call {
                    call: Call::Pwrite { fd: *fd, data: slice_to_vec(data), offset: at },
                    next: Pending::Write,
                }
            },
        }
    }

    /// Changes attributes of a file, through its handle where there is one.
    pub fn setattr(
        &self,
        ino: u64,
        mode: Option<u32>,
        uid: Option<u32>,
        gid: Option<u32>,
        size: Option<u64>,
        atime: Option<TimeOrNow>,
        mtime: Option<TimeOrNow>,
        fh: Option<u64>,
    ) -> (r: FsStep)
        ensures
            r@ == self@.setattr(
                ino,
                state::requested_change(mode, uid, gid, size, atime, mtime),
                fh,
            ),
    {
        let owner: Option<(u32, u32)> = if uid.is_some() || gid.is_some() {
            Some((uid.unwrap_or(u32::MAX), gid.unwrap_or(u32::MAX)))
        } else {
            None
        };
        let len: Option<i64> = match size {
            Some(n) => Some(#[verifier::truncate] (n as i64)),
            None => None,
        };
        let times = if atime.is_some() || mtime.is_some() {
            Some((attr::time_or_now_to_timespec(atime), attr::time_or_now_to_timespec(mtime)))
        } else {
            None
        };
        let change = AttrChange { mode, owner, size: len, times };
        match self.inodes.get_path(ino) {
            None => fail(ENOENT),
            Some(rel_path) => match fh {
                Some(handle) => match self.handles.get(&handle) {
                    Some(fd) => self.change_on(slice_to_vec(rel_path), change, *fd, None),
                    None => fail(EBADF),
                },
                None => self.open_to_change(slice_to_vec(rel_path), change, false),
            },
        }
    }

    /// Opens a file whose attributes are to be changed.
    fn open_to_change(&self, path: Vec<u8>, change: AttrChange, fallback: bool) -> (r: FsStep)
        ensures
            r@ == self@.open_to_change(path@, change, fallback),
    {
        let flags: i32 = if fallback {
            O_WRONLY
        } else {
            O_RDWR
        };
        Step::Call {
            call: Call::OpenNoFollowAt {
                dir: self.root_fd,
                path: path_to_cstring(path.as_slice()),
                flags,
            },
            next: Pending::SetAttrOpen { path, change, fallback },
        }
    }

    /// Goes on with a change of attributes of a file that cannot be opened.
    fn change_path_on(&self, path: Vec<u8>, change: AttrChange) -> (r: FsStep)
        ensures
            r@ == self@.change_path_on(path@, change),
    {
        let dir: i32 = self.root_fd;
        let c_path = path_to_cstring(path.as_slice());
        if let Some(mode) = change.mode {
            let rest = AttrChange { mode: None, ..change };
            Step::Call {
                call: Call::FchmodAt { dir, path: c_path, mode },
                next: Pending::SetAttrPath { path, change: rest },
            }
        } else if let Some((uid, gid)) = change.owner {
            let rest = AttrChange { owner: None, ..change };
            Step::Call {
                call: Call::FchownAt { dir, path: c_path, uid, gid },
                next: Pending::SetAttrPath { path, change: rest },
            }
        } else if let Some((atime, mtime)) = change.times {
            let rest = AttrChange { times: None, ..change };
            Step::Call {
                call: Call::UtimensAt { dir, path: c_path, atime, mtime },
                next: Pending::SetAttrPath { path, change: rest },
            }
        } else {
            Step::Call {
                call: Call::StatAt { dir, path: c_path },
                next: Pending::SetAttrStatus { path, close: None },
            }
        }
    }

    /// Goes on with a change of attributes.
    fn change_on(
        &self,
        path: Vec<u8>,
        change: AttrChange,
        fd: i32,
        close: Option<i32>,
    ) -> (r: FsStep)
        ensures
            r@ == self@.change_on(path@, change, fd, close),
    {
        if let Some(mode) = change.mode {
            let rest = AttrChange { mode: None, ..change };
            Step::Call {
                call: Call::Fchmod { fd, mode },
                next: Pending::SetAttrChange { path, change: rest, fd, close },
            }
        } else if let Some((uid, gid)) = change.owner {
            let rest = AttrChange { owner: None, ..change };
            Step::Call {
                call: Call::Fchown { fd, uid, gid },
                next: Pending::SetAttrChange { path, change: rest, fd, close },
            }
        } else if let Some(size) = change.size {
            let rest = AttrChange { size: None, ..change };
            Step::Call {
                call: Call::Ftruncate { fd, size },
                next: Pending::SetAttrChange { path, change: rest, fd, close },
            }
        } else if let Some((atime, mtime)) = change.times {
            let rest = AttrChange { times: None, ..change };
            Step::Call {
                call: Call::Futimens { fd, atime, mtime },
                next: Pending::SetAttrChange { path, change: rest, fd, close },
            }
        } else {
            Step::Call {
                call: self.stat_path(path.as_slice()),
                next: Pending::SetAttrStatus { path, close },
            }
        }
    }

    /// Creates and opens a file.
    pub fn create(&self, parent: u64, name: &[u8], mode: u32, flags: i32) -> (r: FsStep)
        ensures
            r@ == self@.create(parent, name@, mode, flags),
    {
        match self.inodes.get_path(parent) {
            None => fail(ENOENT),
            Some(parent_path) => {
                let child = path::join(parent_path, name);
                Step::Call {
                    call: Call::CreateAt {
                        dir: self.root_fd,
                        path: path_to_cstring(child.as_slice()),
                        flags: flags | O_CREAT,
                        mode,
                    },
                    next: Pending::CreateOpen { child },
                }
            },
        }
    }

    /// Deletes a file.
    pub fn unlink(&self, parent: u64, name: &[u8]) -> (r: FsStep)
        ensures
            r@ == self@.remove(parent, name@, false),
    {
        self.remove(parent, name, false)
    }

    /// Deletes a directory.
    pub fn rmdir(&self, parent: u64, name: &[u8]) -> (r: FsStep)
        ensures
            r@ == self@.remove(parent, name@, true),
    {
        self.remove(parent, name, true)
    }

    /// Deletes an entry.
    fn remove(&self, parent: u64, name: &[u8], directory: bool) -> (r: FsStep)
        ensures
            r@ == self@.remove(parent, name@, directory),
    {
        match self.inodes.get_path(parent) {
            None => fail(ENOENT),
            Some(parent_path) => {
                let child = path::join(parent_path, name);
                Step::Call {
                    call: Call::UnlinkAt {
                        dir: self.root_fd,
                        path: path_to_cstring(child.as_slice()),
                        directory,
                    },
                    next: Pending::Remove { child },
                }
            },
        }
    }

    /// Creates a directory.
    pub fn mkdir(&self, parent: u64, name: &[u8], mode: u32) -> (r: FsStep)
        ensures
            r@ == self@.mkdir(parent, name@, mode),
    {
        match self.inodes.get_path(parent) {
            None => fail(ENOENT),
            Some(parent_path) => {
                let child = path::join(parent_path, name);
                Step::Call {
                    call: Call::MkdirAt {
                        dir: self.root_fd,
                        path: path_to_cstring(child.as_slice()),
                        mode,
                    },
                    next: Pending::Make { path: child },
                }
            },
        }
    }

    /// Renames an entry, as the flags say.
    pub fn rename(
        &self,
        parent: u64,
        name: &[u8],
        newparent: u64,
        newname: &[u8],
        flags: u32,
    ) -> (r: FsStep)
        ensures
            r@ == self@.rename(parent, name@, newparent, newname@, flags),
    {
        match (self.inodes.get_path(parent), self.inodes.get_path(newparent)) {
            (Some(old_parent), Some(new_parent)) => {
                let old_path = path::join(old_parent, name);
                let new_path = path::join(new_parent, newname);
                Step::Call {
                    call: Call::RenameAt {
                        dir: self.root_fd,
                        old_path: path_to_cstring(old_path.as_slice()),
                        new_path: path_to_cstring(new_path.as_slice()),
                        flags,
                    },
                    next: Pending::Rename {
                        old_path,
                        new_path,
                        exchange: flags & RENAME_EXCHANGE != 0,
                    },
                }
            },
            _ => fail(ENOENT),
        }
    }

    /// Takes notice that a descriptor of an open file was closed.
    pub fn flush(&self) -> (r: FsStep)
        ensures
            r@ == state::replied(Reply::Empty),
    {
        Step::Finish { reply: Reply::Empty, close: None }
    }

    /// Writes an open file through to the disk.
    pub fn fsync(&self, fh: u64, datasync: bool) -> (r: FsStep)
        ensures
            r@ == self@.fsync(fh, datasync),
    {
        match self.handles.get(&fh) {
            None => fail(EBADF),
            Some(fd) => Step::Call {
                call: Call::Fsync { fd: *fd, data_only: datasync },
                next: Pending::Acknowledge,
            },
        }
    }

    /// Creates a symbolic link.
    pub fn symlink(&self, parent: u64, link_name: &[u8], target: &[u8]) -> (r: FsStep)
        ensures
            r@ == self@.symlink(parent, link_name@, target@),
    {
        match self.inodes.get_path(parent) {
            None => fail(ENOENT),
            Some(parent_path) => {
                let link_path = path::join(parent_path, link_name);
                let link_target: Vec<u8> = if path::has_nul(target) {
                    Vec::new()
                } else {
                    slice_to_vec(target)
                };
                Step::Call {
                    call: Call::SymlinkAt {
                        target: link_target,
                        dir: self.root_fd,
                        path: path_to_cstring(link_path.as_slice()),
                    },
                    next: Pending::Make { path: link_path },
                }
            },
        }
    }

    /// Creates a hard link.
    pub fn link(&self, ino: u64, newparent: u64, newname: &[u8]) -> (r: FsStep)
        ensures
            r@ == self@.link(ino, newparent, newname@),
    {
        match (self.inodes.get_path(ino), self.inodes.get_path(newparent)) {
            (Some(old_path), Some(new_parent)) => {
                let new_path = path::join(new_parent, newname);
                Step::Call {
                    call: Call::LinkAt {
                        dir: self.root_fd,
                        old_path: path_to_cstring(old_path),
                        new_path: path_to_cstring(new_path.as_slice()),
                    },
                    next: Pending::Make { path: new_path },
                }
            },
            _ => fail(ENOENT),
        }
    }

    /// Files an open file under a new handle. The descriptor that had the handle, if any,
    /// loses it.
    fn add_file(&mut self, fd: i32) -> (r: (u64, Option<i32>))
        requires
            old(self).wf(),
        ensures
            final(self).wf(),
            (final(self)@, r.0, r.1) == old(self)@.with_file(fd),
    {
        let fh = self.alloc_fh();
        let close = self.handles.insert(fh, fd);
        (fh, close)
    }

    /// Files an open directory under a new handle.
    fn add_dir(&mut self, fd: i32) -> (r: FsStep)
        requires
            old(self).wf(),
        ensures
            final(self).wf(),
            (final(self)@, r@) == old(self)@.resumed(
                Pending::OpenDir,
                Outcome::Descriptor(fd),
            ),
    {
        let fh = self.alloc_fh();
        let close = self.dir_handles.insert(fh, fd);
        Step::Finish { reply: Reply::Opened { fh }, close }
    }

    /// Reports attributes.
    fn report(&mut self, attr: FileAttr, form: Form) -> (r: FsStep)
        requires
            old(self).wf(),
        ensures
            final(self).wf(),
            (final(self)@, r@) == old(self)@.reported(attr, form),
    {
        match form {
            Form::Attr { ttl, close } => Step::Finish { reply: Reply::Attr { ttl, attr }, close },
            Form::Entry { ttl } => Step::Finish {
                reply: Reply::Entry { ttl, attr },
                close: None,
            },
            Form::Created { ttl, fd } => {
                let (fh, close) = self.add_file(fd);
                Step::Finish { reply: Reply::Created { ttl, attr, fh }, close }
            },
        }
    }

    /// Reports the attributes of a file, or asks for the snippets that bear on its size.
    fn describe(&mut self, rel_path: &[u8], st: Stat, form: Form) -> (r: FsStep)
        requires
            old(self).wf(),
            attr::times_fit(st),
        ensures
            final(self).wf(),
            (final(self)@, r@) == old(self)@.described(rel_path@, st, form),
    {
        let is_file = attr::mode_to_filetype(st.st_mode) == FileType::RegularFile;
        if is_file && self.intercepts(rel_path) {
            Step::Call { call: self.query(rel_path), next: Pending::Describe { st, form } }
        } else {
            self.report(stat_to_attr(&st, None), form)
        }
    }

    /// Takes notice of an entry with its inode number and reports its attributes.
    fn describe_entry(&mut self, rel_path: Vec<u8>, st: Stat, form: Form) -> (r: FsStep)
        requires
            old(self).wf(),
            attr::times_fit(st),
        ensures
            final(self).wf(),
            (final(self)@, r@) == old(self)@.with_inode(rel_path@, st.st_ino).described(
                rel_path@,
                st,
                form,
            ),
    {
        self.inodes.insert(slice_to_vec(rel_path.as_slice()), st.st_ino);
        self.describe(rel_path.as_slice(), st, form)
    }

    /// Goes on reading an intercepted file.
    fn read_on(
        &self,
        path: Vec<u8>,
        fd: i32,
        offset: u64,
        size: u32,
        real_size: u64,
        content: Vec<u8>,
    ) -> (r: FsStep)
        ensures
            r@ == self@.read_on(path@, fd, offset, size, real_size, content@),
    {
        let done: u64 = content.len() as u64;
        if done < real_size {
            let at: i64 = #[verifier::truncate] (done as i64);
            Step::Call {
                call: Call::Pread { fd, len: real_size - done, offset: at },
                next: Pending::ReadContent { path, fd, offset, size, real_size, content },
            }
        } else {
            Step::Call {
                call: self.query(path.as_slice()),
                next: Pending::ReadExtra { offset, size, content },
            }
        }
    }

    /// Lists the entries of a directory, and takes notice of their inode numbers.
    fn list(
        &mut self,
        parent: &[u8],
        offset: u64,
        entries: &Vec<Option<RawEntry<Vec<u8>>>>,
    ) -> (r: FsStep)
        requires
            old(self).wf(),
        ensures
            final(self).wf(),
            (final(self)@, r@) == old(self)@.resumed(
                Pending::ReadDir { parent: parent@, offset },
                Outcome::Entries(protocol::raw_entries(entries@)),
            ),
    {
        let mut items: Vec<DirItem<Vec<u8>>> = Vec::new();
        let mut count: usize = 0;
        let mut i: usize = 0;
        let ghost all = protocol::raw_entries(entries@);
        let ghost before = self@;
        proof {
            assert(all.take(0) =~= Seq::empty());
            assert(protocol::dir_items(items@) =~= Seq::empty());
        }
        while i < entries.len()
            invariant
                self.wf(),
                i <= entries@.len(),
                count <= i,
                all == protocol::raw_entries(entries@),
                count == state::listing(all.take(i as int)).len(),
                protocol::dir_items(items@) == state::from_offset(
                    state::listing(all.take(i as int)),
                    offset,
                ),
                self@ == (FsState {
                    inodes: state::inodes_after_listing(
                        before.inodes,
                        parent@,
                        all.take(i as int),
                    ),
                    ..before
                }),
            decreases entries@.len() - i,
        {
            let ghost done = all.take(i as int);
            let ghost listed = state::listing(done);
            proof {
                assert(all.take(i + 1).drop_last() =~= done);
                assert(all.take(i + 1).last() == all[i as int]);
            }
            if let Some(entry) = &entries[i] {
                if entry.ino != 0 {
                    self.inodes.insert(child_path(parent, entry.name.as_slice()), entry.ino);
                    let kind = match entry.kind {
                        Some(kind) => kind,
                        None => FileType::RegularFile,
                    };
                    let ghost item = DirItem::<Seq<u8>> {
                        ino: entry.ino,
                        next: (count + 1) as u64,
                        kind,
                        name: entry.name@,
                    };
                    let ghost shown = items@;
                    if offset <= count as u64 {
                        items.push(
                            DirItem {
                                ino: entry.ino,
                                next: (count + 1) as u64,
                                kind,
                                name: slice_to_vec(entry.name.as_slice()),
                            },
                        );
                        proof {
                            assert(protocol::dir_items(items@) =~= protocol::dir_items(shown).push(
                                item,
                            ));
                        }
                    }
                    proof {
                        assert(state::listing(all.take(i + 1)) == listed.push(item));
                        assert(state::from_offset(listed.push(item), offset)
                            =~= protocol::dir_items(items@));
                    }
                    count = count + 1;
                }
            }
            i = i + 1;
        }
        assert(all.take(entries@.len() as int) =~= all);
        Step::Finish { reply: Reply::Directory(items), close: None }
    }

    /// Takes the outcome of the call that a request waits for, and goes on with it.
    pub fn resume(&mut self, pending: FsPending, outcome: FsOutcome) -> (r: FsStep)
        requires
            old(self).wf(),
            protocol::accepts(pending@, outcome@),
        ensures
            final(self).wf(),
            (final(self)@, r@) == old(self)@.resumed(pending@, outcome@),
    {
        match (pending, outcome) {
            (Pending::Lookup { child }, Outcome::Status(st)) => {
                let ttl = self.ttl_for(child.as_slice());
                self.describe_entry(child, st, Form::Entry { ttl })
            },
            (Pending::GetAttr { path }, Outcome::Status(st)) => {
                let ttl = self.ttl_for(path.as_slice());
                self.describe(path.as_slice(), st, Form::Attr { ttl, close: None })
            },
            (Pending::Describe { st, form }, Outcome::Rows(rows)) => {
                let extra = SqliteProvider::extra_content(&rows);
                self.report(stat_to_attr(&st, Some(extra.as_slice())), form)
            },
            (Pending::Describe { st, form }, _) => self.report(stat_to_attr(&st, None), form),
            (Pending::OpenDir, Outcome::Descriptor(fd)) => self.add_dir(fd),
            (Pending::ReadDir { parent, offset }, Outcome::Entries(entries)) => {
                self.list(parent.as_slice(), offset, &entries)
            },
            (Pending::Open, Outcome::Descriptor(fd)) => {
                let (fh, close) = self.add_file(fd);
                Step::Finish { reply: Reply::Opened { fh }, close }
            },
            (Pending::PassData, Outcome::Data(data)) => Step::Finish {
                reply: Reply::Data(data),
                close: None,
            },
            (Pending::ReadStatus { path, fd, offset, size }, Outcome::Status(st)) => {
                let real_size: u64 = #[verifier::truncate] (st.st_size as u64);
                let content: Vec<u8> = Vec::new();
                assert(content@ =~= Seq::empty());
                self.read_on(path, fd, offset, size, real_size, content)
            },
            (
                Pending::ReadContent { path, fd, offset, size, real_size, content },
                Outcome::Data(data),
            ) => {
                if data.len() > 0 {
                    let mut more = content;
                    let ghost front = more@;
                    more.extend_from_slice(data.as_slice());
                    assert(more@ =~= front + data@);
                    self.read_on(path, fd, offset, size, real_size, more)
                } else {
                    Step::Call {
                        call: self.query(path.as_slice()),
                        next: Pending::ReadExtra { offset, size, content },
                    }
                }
            },
            (Pending::ReadContent { path, offset, size, content, .. }, _) => Step::Call {
                call: self.query(path.as_slice()),
                next: Pending::ReadExtra { offset, size, content },
            },
            (Pending::ReadExtra { offset, size, content }, Outcome::Rows(rows)) => {
                let extra = SqliteProvider::extra_content(&rows);
                let full = InterceptMatcher::assemble(content, extra.as_slice());
                Step::Finish {
                    reply: Reply::Data(read_window(&full, offset, size)),
                    close: None,
                }
            },
            (Pending::ReadExtra { .. }, _) => fail(EIO),
            (Pending::Acknowledge, Outcome::Success) => Step::Finish {
                reply: Reply::Empty,
                close: None,
            },
            (Pending::Usage, Outcome::Filesystem(st)) => Step::Finish {
                reply: Reply::Usage(attr::usage(&st)),
                close: None,
            },
            (Pending::Write, Outcome::Count(count)) => {
                let written: u32 = #[verifier::truncate] (count as u32);
                Step::Finish { reply: Reply::Written(written), close: None }
            },
            (Pending::SetAttrOpen { path, change, .. }, Outcome::Descriptor(fd)) => {
                self.change_on(path, change, fd, Some(fd))
            },
            (Pending::SetAttrOpen { path, change, fallback: false }, _) => {
                self.open_to_change(path, change, true)
            },
            (Pending::SetAttrOpen { path, change, fallback: true }, Outcome::Failure(errno)) => {
                if change.size.is_none() {
                    self.change_path_on(path, change)
                } else {
                    fail(errno)
                }
            },
            (Pending::SetAttrPath { path, change }, Outcome::Success) => {
                self.change_path_on(path, change)
            },
            (Pending::SetAttrChange { path, change, fd, close }, Outcome::Success) => {
                self.change_on(path, change, fd, close)
            },
            (Pending::SetAttrChange { close, .. }, Outcome::Failure(errno)) => Step::Finish {
                reply: Reply::Failure(errno),
                close,
            },
            (Pending::SetAttrStatus { path, close }, Outcome::Status(st)) => {
                let ttl = self.ttl_for(path.as_slice());
                self.describe(path.as_slice(), st, Form::Attr { ttl, close })
            },
            (Pending::SetAttrStatus { close, .. }, Outcome::Failure(errno)) => Step::Finish {
                reply: Reply::Failure(errno),
                close,
            },
            (Pending::CreateOpen { child }, Outcome::Descriptor(fd)) => Step::Call {
                call: Call::Fstat { fd },
                next: Pending::CreateStatus { child, fd },
            },
            (Pending::CreateStatus { child, fd }, Outcome::Status(st)) => {
                let ttl = self.ttl_for(child.as_slice());
                self.describe_entry(child, st, Form::Created { ttl, fd })
            },
            (Pending::CreateStatus { fd, .. }, Outcome::Failure(errno)) => Step::Finish {
                reply: Reply::Failure(errno),
                close: Some(fd),
            },
            (Pending::Remove { child }, Outcome::Success) => {
                self.inodes.remove_path(child.as_slice());
                Step::Finish { reply: Reply::Empty, close: None }
            },
            (Pending::Make { path }, Outcome::Success) => Step::Call {
                call: self.stat_path(path.as_slice()),
                next: Pending::MakeStatus { path },
            },
            (Pending::MakeStatus { path }, Outcome::Status(st)) => {
                self.describe_entry(path, st, Form::Entry { ttl: TTL_NORMAL })
            },
            (Pending::Rename { old_path, new_path, exchange }, Outcome::Success) => {
                if exchange {
                    self.inodes.exchange(old_path, new_path);
                } else {
                    self.inodes.rename(old_path.as_slice(), new_path);
                }
                Step::Finish { reply: Reply::Empty, close: None }
            },
            (_, Outcome::Failure(errno)) => fail(errno),
            (_, _) => fail(EIO),
        }
    }
}

} // verus!
