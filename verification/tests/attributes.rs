use dycon::attr::{
    attr_with_size, can_tell_times, mode_to_filetype, time_or_now_to_timespec,
    timespec_to_systime, usage, FileType, FsUsage, Stat, StatVfs, SysTime, TimeOrNow, Timespec,
    S_IFBLK, S_IFCHR, S_IFDIR, S_IFIFO, S_IFLNK, S_IFMT, S_IFREG, S_IFSOCK, UTIME_NOW, UTIME_OMIT,
};
use dycon::state;

fn stat() -> Stat {
    Stat {
        st_ino: 42,
        st_mode: 0o104755,
        st_nlink: (1 << 32) + 3,
        st_uid: 1000,
        st_gid: 100,
        st_rdev: 7,
        st_size: 5,
        st_blksize: 4096,
        st_blocks: 8,
        st_atime: 1,
        st_atime_nsec: 2,
        st_mtime: 3,
        st_mtime_nsec: 4,
        st_ctime: -5,
        st_ctime_nsec: 6,
    }
}

#[test]
fn constants_are_those_of_the_system() {
    assert_eq!(S_IFMT, libc::S_IFMT);
    assert_eq!(S_IFSOCK, libc::S_IFSOCK);
    assert_eq!(S_IFLNK, libc::S_IFLNK);
    assert_eq!(S_IFREG, libc::S_IFREG);
    assert_eq!(S_IFBLK, libc::S_IFBLK);
    assert_eq!(S_IFDIR, libc::S_IFDIR);
    assert_eq!(S_IFCHR, libc::S_IFCHR);
    assert_eq!(S_IFIFO, libc::S_IFIFO);
    assert_eq!(UTIME_NOW, libc::UTIME_NOW);
    assert_eq!(UTIME_OMIT, libc::UTIME_OMIT);
    assert_eq!(state::ENOENT, libc::ENOENT);
    assert_eq!(state::EIO, libc::EIO);
    assert_eq!(state::EBADF, libc::EBADF);
    assert_eq!(state::RENAME_EXCHANGE, libc::RENAME_EXCHANGE);
    assert_eq!(state::O_WRONLY, libc::O_WRONLY);
    assert_eq!(state::O_RDWR, libc::O_RDWR);
    assert_eq!(state::O_CREAT, libc::O_CREAT);
    assert_eq!(state::O_TRUNC, libc::O_TRUNC);
    assert_eq!(state::O_APPEND, libc::O_APPEND);
    assert_eq!(state::PATH_MAX, libc::PATH_MAX as u64);
}

#[test]
fn modes_tell_the_type() {
    assert_eq!(mode_to_filetype(0o040755), FileType::Directory);
    assert_eq!(mode_to_filetype(0o100644), FileType::RegularFile);
    assert_eq!(mode_to_filetype(0o120777), FileType::Symlink);
    assert_eq!(mode_to_filetype(0o060660), FileType::BlockDevice);
    assert_eq!(mode_to_filetype(0o020620), FileType::CharDevice);
    assert_eq!(mode_to_filetype(0o010600), FileType::NamedPipe);
    assert_eq!(mode_to_filetype(0o140777), FileType::Socket);
    assert_eq!(mode_to_filetype(0), FileType::RegularFile);
    assert_eq!(mode_to_filetype(0o170000), FileType::RegularFile);
}

#[test]
fn times_are_told_from_the_epoch_on() {
    assert_eq!(timespec_to_systime(12, 34), SysTime { secs: 12, nanos: 34 });
    assert_eq!(timespec_to_systime(0, 0), SysTime { secs: 0, nanos: 0 });
    assert_eq!(timespec_to_systime(-1, 999), SysTime { secs: 0, nanos: 0 });
    assert_eq!(timespec_to_systime(1, 2_500_000_000), SysTime { secs: 3, nanos: 500_000_000 });
    assert_eq!(timespec_to_systime(0, -1), SysTime { secs: 4, nanos: 294_967_295 });
}

#[test]
fn times_are_set() {
    let at = |secs, nanos| Some(TimeOrNow::SpecificTime(SysTime { secs, nanos }));
    assert_eq!(time_or_now_to_timespec(at(5, 6)), Timespec { tv_sec: 5, tv_nsec: 6 });
    assert_eq!(time_or_now_to_timespec(at(-5, 6)), Timespec { tv_sec: 0, tv_nsec: 0 });
    assert_eq!(
        time_or_now_to_timespec(Some(TimeOrNow::Now)),
        Timespec { tv_sec: 0, tv_nsec: libc::UTIME_NOW }
    );
    assert_eq!(time_or_now_to_timespec(None), Timespec { tv_sec: 0, tv_nsec: libc::UTIME_OMIT });
}

#[test]
fn times_survive_the_round_trip() {
    let told = timespec_to_systime(1_700_000_000, 123_456_789);
    assert_eq!(
        time_or_now_to_timespec(Some(TimeOrNow::SpecificTime(told))),
        Timespec { tv_sec: 1_700_000_000, tv_nsec: 123_456_789 }
    );
}

#[test]
fn attributes_are_cut_to_their_width() {
    let attr = attr_with_size(&stat(), 99);
    assert_eq!(attr.ino, 42);
    assert_eq!(attr.size, 99);
    assert_eq!(attr.blocks, 8);
    assert_eq!(attr.atime, SysTime { secs: 1, nanos: 2 });
    assert_eq!(attr.mtime, SysTime { secs: 3, nanos: 4 });
    assert_eq!(attr.ctime, SysTime { secs: 0, nanos: 0 });
    assert_eq!(attr.crtime, SysTime { secs: 0, nanos: 0 });
    assert_eq!(attr.kind, FileType::RegularFile);
    assert_eq!(attr.perm, 0o4755);
    assert_eq!(attr.nlink, 3);
    assert_eq!((attr.uid, attr.gid), (1000, 100));
    assert_eq!(attr.rdev, 7);
    assert_eq!(attr.blksize, 4096);
    assert_eq!(attr.flags, 0);
}

#[test]
fn times_that_do_not_fit_are_noticed() {
    let mut st = stat();
    assert!(can_tell_times(&st));
    st.st_mtime = i64::MAX;
    assert!(can_tell_times(&st));
    st.st_mtime_nsec = 1_000_000_000;
    assert!(!can_tell_times(&st));
}

#[test]
fn usage_is_passed_on() {
    let st = StatVfs {
        f_blocks: 1,
        f_bfree: 2,
        f_bavail: 3,
        f_files: 4,
        f_ffree: 5,
        f_bsize: (1 << 32) + 6,
        f_namemax: 255,
        f_frsize: 4096,
    };
    let expected = FsUsage {
        blocks: 1,
        bfree: 2,
        bavail: 3,
        files: 4,
        ffree: 5,
        bsize: 6,
        namelen: 255,
        frsize: 4096,
    };
    assert_eq!(usage(&st), expected);
}
