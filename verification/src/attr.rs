//! File attributes: what the kernel reports of a file, and what is reported on.

use vstd::prelude::*;

verus! {

/// The bits of a mode that hold the type of the file.
pub const S_IFMT: u32 = 0o170000;
pub const S_IFSOCK: u32 = 0o140000;
pub const S_IFLNK: u32 = 0o120000;
pub const S_IFREG: u32 = 0o100000;
pub const S_IFBLK: u32 = 0o060000;
pub const S_IFDIR: u32 = 0o040000;
pub const S_IFCHR: u32 = 0o020000;
pub const S_IFIFO: u32 = 0o010000;

/// The nanoseconds that ask the kernel for the current time.
pub const UTIME_NOW: i64 = 0x3fff_ffff;

/// The nanoseconds that ask the kernel to leave a time as it is.
pub const UTIME_OMIT: i64 = 0x3fff_fffe;

pub const NANOS_PER_SEC: u32 = 1_000_000_000;

/// The type of a file.
#[derive(Clone, Copy, Debug, PartialEq, Eq, Structural)]
pub enum FileType {
    NamedPipe,
    CharDevice,
    BlockDevice,
    Directory,
    RegularFile,
    Symlink,
    Socket,
}

/// A point in time, in seconds from the Unix epoch and nanoseconds from that second.
#[derive(Clone, Copy, Debug, PartialEq, Eq, Structural)]
pub struct SysTime {
    pub secs: i64,
    pub nanos: u32,
}

/// The Unix epoch.
pub open spec fn unix_epoch() -> SysTime {
    SysTime { secs: 0, nanos: 0 }
}

/// A time to set: a given one, or the one at which it is set.
#[derive(Clone, Copy, Debug, PartialEq, Eq, Structural)]
pub enum TimeOrNow {
    SpecificTime(SysTime),
    Now,
}

/// A time as the kernel takes it.
#[derive(Clone, Copy, Debug, PartialEq, Eq, Structural)]
pub struct Timespec {
    pub tv_sec: i64,
    pub tv_nsec: i64,
}

/// What the kernel reports of a file.
#[derive(Clone, Copy, Debug, PartialEq, Eq, Structural)]
pub struct Stat {
    pub st_ino: u64,
    pub st_mode: u32,
    pub st_nlink: u64,
    pub st_uid: u32,
    pub st_gid: u32,
    pub st_rdev: u64,
    pub st_size: i64,
    pub st_blksize: i64,
    pub st_blocks: i64,
    pub st_atime: i64,
    pub st_atime_nsec: i64,
    pub st_mtime: i64,
    pub st_mtime_nsec: i64,
    pub st_ctime: i64,
    pub st_ctime_nsec: i64,
}

/// What is reported of a file.
#[derive(Clone, Copy, Debug, PartialEq, Eq, Structural)]
pub struct FileAttr {
    pub ino: u64,
    pub size: u64,
    pub blocks: u64,
    pub atime: SysTime,
    pub mtime: SysTime,
    pub ctime: SysTime,
    pub crtime: SysTime,
    pub kind: FileType,
    pub perm: u16,
    pub nlink: u32,
    pub uid: u32,
    pub gid: u32,
    pub rdev: u32,
    pub blksize: u32,
    pub flags: u32,
}

/// What the kernel reports of a filesystem.
#[derive(Clone, Copy, Debug, PartialEq, Eq, Structural)]
pub struct StatVfs {
    pub f_blocks: u64,
    pub f_bfree: u64,
    pub f_bavail: u64,
    pub f_files: u64,
    pub f_ffree: u64,
    pub f_bsize: u64,
    pub f_namemax: u64,
    pub f_frsize: u64,
}

/// What is reported of a filesystem.
#[derive(Clone, Copy, Debug, PartialEq, Eq, Structural)]
pub struct FsUsage {
    pub blocks: u64,
    pub bfree: u64,
    pub bavail: u64,
    pub files: u64,
    pub ffree: u64,
    pub bsize: u32,
    pub namelen: u32,
    pub frsize: u32,
}

/// The type of file that a mode tells of; an unknown type counts as a regular file.
pub open spec fn file_type_of(mode: u32) -> FileType {
    let kind = mode & S_IFMT;
    if kind == S_IFDIR {
        FileType::Directory
    } else if kind == S_IFLNK {
        FileType::Symlink
    } else if kind == S_IFBLK {
        FileType::BlockDevice
    } else if kind == S_IFCHR {
        FileType::CharDevice
    } else if kind == S_IFIFO {
        FileType::NamedPipe
    } else if kind == S_IFSOCK {
        FileType::Socket
    } else {
        FileType::RegularFile
    }
}

/// The type of file that a mode tells of.
pub fn mode_to_filetype(mode: u32) -> (r: FileType)
    ensures
        r == file_type_of(mode),
{
    let kind: u32 = mode & S_IFMT;
    if kind == S_IFDIR {
        FileType::Directory
    } else if kind == S_IFREG {
        FileType::RegularFile
    } else if kind == S_IFLNK {
        FileType::Symlink
    } else if kind == S_IFBLK {
        FileType::BlockDevice
    } else if kind == S_IFCHR {
        FileType::CharDevice
    } else if kind == S_IFIFO {
        FileType::NamedPipe
    } else if kind == S_IFSOCK {
        FileType::Socket
    } else {
        FileType::RegularFile
    }
}

/// The seconds to which `sec` seconds and `nsec` nanoseconds add up.
pub open spec fn whole_secs(sec: i64, nsec: i64) -> int {
    sec + (nsec as u32) / NANOS_PER_SEC
}

/// Whether a time of the kernel's can be told: times before the epoch are reported as
/// the epoch, and a later one has to fit.
pub open spec fn time_fits(sec: i64, nsec: i64) -> bool {
    sec >= 0 ==> whole_secs(sec, nsec) <= i64::MAX
}

/// The point in time that the kernel's `sec` and `nsec` tell of.
pub open spec fn systime_of(sec: i64, nsec: i64) -> SysTime {
    if sec >= 0 {
        SysTime { secs: whole_secs(sec, nsec) as i64, nanos: (nsec as u32) % NANOS_PER_SEC }
    } else {
        unix_epoch()
    }
}

/// The point in time that the kernel's `sec` and `nsec` tell of; the epoch for a time
/// before it.
pub fn timespec_to_systime(sec: i64, nsec: i64) -> (r: SysTime)
    requires
        time_fits(sec, nsec),
    ensures
        r == systime_of(sec, nsec),
        r.nanos < NANOS_PER_SEC,
{
    if sec >= 0 {
        let nanos: u32 = #[verifier::truncate] (nsec as u32);
        SysTime { secs: sec + (nanos / NANOS_PER_SEC) as i64, nanos: nanos % NANOS_PER_SEC }
    } else {
        SysTime { secs: 0, nanos: 0 }
    }
}

/// The time to hand to the kernel: none leaves the time as it is, and one before the
/// epoch is taken for the epoch.
pub open spec fn timespec_of(t: Option<TimeOrNow>) -> Timespec {
    match t {
        Some(TimeOrNow::SpecificTime(st)) => if st.secs >= 0 {
            Timespec { tv_sec: st.secs, tv_nsec: st.nanos as i64 }
        } else {
            Timespec { tv_sec: 0, tv_nsec: 0 }
        },
        Some(TimeOrNow::Now) => Timespec { tv_sec: 0, tv_nsec: UTIME_NOW },
        None => Timespec { tv_sec: 0, tv_nsec: UTIME_OMIT },
    }
}

/// The time to hand to the kernel.
pub fn time_or_now_to_timespec(t: Option<TimeOrNow>) -> (r: Timespec)
    ensures
        r == timespec_of(t),
{
    match t {
        Some(TimeOrNow::SpecificTime(st)) => {
            if st.secs >= 0 {
                Timespec { tv_sec: st.secs, tv_nsec: st.nanos as i64 }
            } else {
                Timespec { tv_sec: 0, tv_nsec: 0 }
            }
        },
        Some(TimeOrNow::Now) => Timespec { tv_sec: 0, tv_nsec: UTIME_NOW },
        None => Timespec { tv_sec: 0, tv_nsec: UTIME_OMIT },
    }
}

/// Whether the three times of a report can be told.
pub open spec fn times_fit(st: Stat) -> bool {
    &&& time_fits(st.st_atime, st.st_atime_nsec)
    &&& time_fits(st.st_mtime, st.st_mtime_nsec)
    &&& time_fits(st.st_ctime, st.st_ctime_nsec)
}

/// Whether a time of the kernel's can be told.
fn can_tell_time(sec: i64, nsec: i64) -> (r: bool)
    ensures
        r == time_fits(sec, nsec),
{
    let nanos: u32 = #[verifier::truncate] (nsec as u32);
    sec < 0 || (nanos / NANOS_PER_SEC) as i64 <= i64::MAX - sec
}

/// Whether the three times of a report can be told.
pub fn can_tell_times(st: &Stat) -> (r: bool)
    ensures
        r == times_fit(*st),
{
    can_tell_time(st.st_atime, st.st_atime_nsec) && can_tell_time(st.st_mtime, st.st_mtime_nsec)
        && can_tell_time(st.st_ctime, st.st_ctime_nsec)
}

/// The attributes of a file that is `size` bytes long to its readers. Numbers that are
/// wider in the kernel's report are cut to the width that is reported on.
pub open spec fn attr_of(st: Stat, size: u64) -> FileAttr {
    FileAttr {
        ino: st.st_ino,
        size,
        blocks: st.st_blocks as u64,
        atime: systime_of(st.st_atime, st.st_atime_nsec),
        mtime: systime_of(st.st_mtime, st.st_mtime_nsec),
        ctime: systime_of(st.st_ctime, st.st_ctime_nsec),
        crtime: unix_epoch(),
        kind: file_type_of(st.st_mode),
        perm: (st.st_mode & 0o7777) as u16,
        nlink: st.st_nlink as u32,
        uid: st.st_uid,
        gid: st.st_gid,
        rdev: st.st_rdev as u32,
        blksize: st.st_blksize as u32,
        flags: 0,
    }
}

/// The attributes of a file that is `size` bytes long to its readers.
pub fn attr_with_size(st: &Stat, size: u64) -> (r: FileAttr)
    requires
        times_fit(*st),
    ensures
        r == attr_of(*st, size),
{
    FileAttr {
        ino: st.st_ino,
        size,
        blocks: #[verifier::truncate] (st.st_blocks as u64),
        atime: timespec_to_systime(st.st_atime, st.st_atime_nsec),
        mtime: timespec_to_systime(st.st_mtime, st.st_mtime_nsec),
        ctime: timespec_to_systime(st.st_ctime, st.st_ctime_nsec),
        crtime: SysTime { secs: 0, nanos: 0 },
        kind: mode_to_filetype(st.st_mode),
        perm: #[verifier::truncate] ((st.st_mode & 0o7777) as u16),
        nlink: #[verifier::truncate] (st.st_nlink as u32),
        uid: st.st_uid,
        gid: st.st_gid,
        rdev: #[verifier::truncate] (st.st_rdev as u32),
        blksize: #[verifier::truncate] (st.st_blksize as u32),
        flags: 0,
    }
}

/// What is reported of a filesystem.
pub open spec fn usage_of(st: StatVfs) -> FsUsage {
    FsUsage {
        blocks: st.f_blocks,
        bfree: st.f_bfree,
        bavail: st.f_bavail,
        files: st.f_files,
        ffree: st.f_ffree,
        bsize: st.f_bsize as u32,
        namelen: st.f_namemax as u32,
        frsize: st.f_frsize as u32,
    }
}

/// What is reported of a filesystem.
pub fn usage(st: &StatVfs) -> (r: FsUsage)
    ensures
        r == usage_of(*st),
{
    FsUsage {
        blocks: st.f_blocks,
        bfree: st.f_bfree,
        bavail: st.f_bavail,
        files: st.f_files,
        ffree: st.f_ffree,
        bsize: #[verifier::truncate] (st.f_bsize as u32),
        namelen: #[verifier::truncate] (st.f_namemax as u32),
        frsize: #[verifier::truncate] (st.f_frsize as u32),
    }
}

/// A time that was read from the kernel and is set again is the time that was read,
/// unless it lies before the epoch.
pub proof fn law_time_survives_the_round_trip(sec: i64, nsec: i64)
    requires
        0 <= sec,
        0 <= nsec < NANOS_PER_SEC,
    ensures
        timespec_of(Some(TimeOrNow::SpecificTime(systime_of(sec, nsec)))) == (Timespec {
            tv_sec: sec,
            tv_nsec: nsec,
        }),
{
}

/// Type and permissions share a mode without bearing on each other: the type is told by
/// the type bits whatever the permissions are, and the permissions come back as they were.
pub proof fn law_type_and_permissions_are_apart(kind: u32, perm: u32)
    requires
        kind & S_IFMT == kind,
        perm <= 0o7777,
    ensures
        file_type_of(kind | perm) == file_type_of(kind),
        (kind | perm) & 0o7777 == perm,
{
    assert((kind | perm) & 0o170000 == kind) by (bit_vector)
        requires
            kind & 0o170000 == kind,
            perm <= 0o7777,
    ;
    assert((kind | perm) & 0o7777 == perm) by (bit_vector)
        requires
            kind & 0o170000 == kind,
            perm <= 0o7777,
    ;
}

/// The attributes of a file are those that its status tells, each under its own name, with
/// the size that was asked for. Numbers are cut to the width that they are reported in.
pub proof fn law_attributes_are_those_of_the_status(st: Stat, size: u64)
    ensures
        attr_of(st, size).size == size,
        attr_of(st, size).ino == st.st_ino,
        attr_of(st, size).uid == st.st_uid,
        attr_of(st, size).gid == st.st_gid,
        attr_of(st, size).kind == file_type_of(st.st_mode),
        attr_of(st, size).perm as u32 == st.st_mode & 0o7777,
        attr_of(st, size).blocks == st.st_blocks as u64,
        attr_of(st, size).nlink == st.st_nlink as u32,
        attr_of(st, size).rdev == st.st_rdev as u32,
        attr_of(st, size).blksize == st.st_blksize as u32,
        st.st_blocks >= 0 ==> attr_of(st, size).blocks == st.st_blocks,
        st.st_nlink <= u32::MAX ==> attr_of(st, size).nlink == st.st_nlink,
        st.st_rdev <= u32::MAX ==> attr_of(st, size).rdev == st.st_rdev,
        0 <= st.st_blksize <= u32::MAX ==> attr_of(st, size).blksize == st.st_blksize,
        attr_of(st, size).atime == systime_of(st.st_atime, st.st_atime_nsec),
        attr_of(st, size).mtime == systime_of(st.st_mtime, st.st_mtime_nsec),
        attr_of(st, size).ctime == systime_of(st.st_ctime, st.st_ctime_nsec),
        attr_of(st, size).crtime == (SysTime { secs: 0, nanos: 0 }),
        attr_of(st, size).flags == 0,
{
    let mode = st.st_mode;
    assert(((mode & 0o7777) as u16) as u32 == mode & 0o7777) by (bit_vector);
}

/// What is reported of a filesystem is what the kernel tells, each number under its own
/// name.
pub proof fn law_usage_is_that_of_the_status(st: StatVfs)
    ensures
        usage_of(st).blocks == st.f_blocks,
        usage_of(st).bfree == st.f_bfree,
        usage_of(st).bavail == st.f_bavail,
        usage_of(st).files == st.f_files,
        usage_of(st).ffree == st.f_ffree,
        usage_of(st).bsize == st.f_bsize as u32,
        usage_of(st).namelen == st.f_namemax as u32,
        usage_of(st).frsize == st.f_frsize as u32,
        st.f_bsize <= u32::MAX ==> usage_of(st).bsize == st.f_bsize,
        st.f_namemax <= u32::MAX ==> usage_of(st).namelen == st.f_namemax,
        st.f_frsize <= u32::MAX ==> usage_of(st).frsize == st.f_frsize,
{
}

/// The type of a file goes by its four type bits alone. Each of the seven types has its own,
/// and what is none of them counts as a regular file.
pub proof fn law_type_bits_tell_the_type(mode: u32)
    ensures
        mode & 0o170000 == 0o140000 <==> file_type_of(mode) == FileType::Socket,
        mode & 0o170000 == 0o120000 <==> file_type_of(mode) == FileType::Symlink,
        mode & 0o170000 == 0o060000 <==> file_type_of(mode) == FileType::BlockDevice,
        mode & 0o170000 == 0o040000 <==> file_type_of(mode) == FileType::Directory,
        mode & 0o170000 == 0o020000 <==> file_type_of(mode) == FileType::CharDevice,
        mode & 0o170000 == 0o010000 <==> file_type_of(mode) == FileType::NamedPipe,
        mode & 0o170000 == 0o100000 ==> file_type_of(mode) == FileType::RegularFile,
{
}

/// A time from the epoch on is told to the nanosecond, and one before it as the epoch. It can
/// be told unless its seconds overflow, which takes more nanoseconds than a second has.
pub proof fn law_times_are_told_to_the_nanosecond(sec: i64, nsec: i64)
    ensures
        0 <= nsec < 1_000_000_000 ==> time_fits(sec, nsec),
        time_fits(sec, nsec) <==> sec < 0 || sec + (nsec as u32) as int / 1_000_000_000
            <= i64::MAX,
        sec >= 0 && time_fits(sec, nsec) ==> {
            let t = systime_of(sec, nsec);
            &&& t.nanos < 1_000_000_000
            &&& t.secs * 1_000_000_000 + t.nanos == sec * 1_000_000_000 + (nsec as u32)
        },
        sec >= 0 && 0 <= nsec < 1_000_000_000 ==> systime_of(sec, nsec).secs == sec && systime_of(
            sec,
            nsec,
        ).nanos == nsec,
        sec < 0 ==> systime_of(sec, nsec) == (SysTime { secs: 0, nanos: 0 }),
{
}

/// The three times of a status can be told exactly if each of them can.
pub proof fn law_status_can_be_told_if_its_times_can(st: Stat)
    ensures
        times_fit(st) <==> time_fits(st.st_atime, st.st_atime_nsec) && time_fits(
            st.st_mtime,
            st.st_mtime_nsec,
        ) && time_fits(st.st_ctime, st.st_ctime_nsec),
{
}

/// A given time from the epoch on is set as it is, and one before it as the epoch. The
/// current time, and a time that is to stay, are asked for by their marks.
pub proof fn law_given_times_are_set(st: SysTime)
    ensures
        st.secs >= 0 ==> timespec_of(Some(TimeOrNow::SpecificTime(st))).tv_sec == st.secs
            && timespec_of(Some(TimeOrNow::SpecificTime(st))).tv_nsec == st.nanos,
        st.secs < 0 ==> timespec_of(Some(TimeOrNow::SpecificTime(st))) == (Timespec {
            tv_sec: 0,
            tv_nsec: 0,
        }),
        timespec_of(Some(TimeOrNow::Now)) == (Timespec { tv_sec: 0, tv_nsec: 0x3fff_ffff }),
        timespec_of(None) == (Timespec { tv_sec: 0, tv_nsec: 0x3fff_fffe }),
{
}

} // verus!
