use dycon::attr::{FileAttr, FileType, FsUsage, Stat, StatVfs, SysTime, TimeOrNow, Timespec};
use dycon::attr::{S_IFDIR, S_IFREG, UTIME_OMIT};
use dycon::fs::{child_path, read_window, stat_to_attr, ProxyFs};
use dycon::intercept::InterceptMatcher;
use dycon::protocol::{
    Call, DirItem, FsCall, FsOutcome, FsReply, FsStep, Outcome, RawEntry, Reply, Step,
};
use dycon::provider::SqliteProvider;
use dycon::state::{EBADF, EIO, ENOENT, PATH_MAX, RENAME_EXCHANGE};
use dycon::state::{O_APPEND, O_CREAT, O_RDWR, O_TRUNC, O_WRONLY};

const ROOT_FD: i32 = 7;

/// A filesystem that intercepts the files named `NOTES.md`.
fn filesystem() -> ProxyFs {
    let matcher = InterceptMatcher::new(&["NOTES.md".to_string()]).unwrap();
    ProxyFs::new(ROOT_FD, matcher, SqliteProvider::new(b"/tmp/db".to_vec()))
}

fn regular(ino: u64, size: i64) -> Stat {
    Stat {
        st_ino: ino,
        st_mode: S_IFREG | 0o644,
        st_nlink: 1,
        st_uid: 1000,
        st_gid: 100,
        st_rdev: 0,
        st_size: size,
        st_blksize: 4096,
        st_blocks: 8,
        st_atime: 10,
        st_atime_nsec: 11,
        st_mtime: 20,
        st_mtime_nsec: 21,
        st_ctime: 30,
        st_ctime_nsec: 31,
    }
}

fn directory(ino: u64) -> Stat {
    Stat { st_mode: S_IFDIR | 0o755, ..regular(ino, 4096) }
}

/// What is reported of `regular(ino, _)` with the given size.
fn attr(ino: u64, size: u64) -> FileAttr {
    FileAttr {
        ino,
        size,
        blocks: 8,
        atime: SysTime { secs: 10, nanos: 11 },
        mtime: SysTime { secs: 20, nanos: 21 },
        ctime: SysTime { secs: 30, nanos: 31 },
        crtime: SysTime { secs: 0, nanos: 0 },
        kind: FileType::RegularFile,
        perm: 0o644,
        nlink: 1,
        uid: 1000,
        gid: 100,
        rdev: 0,
        blksize: 4096,
        flags: 0,
    }
}

fn rows(texts: &[&str]) -> FsOutcome {
    Outcome::Rows(texts.iter().map(|t| t.to_string()).collect())
}

fn query(filename: &str) -> FsCall {
    Call::Query { db: b"/tmp/db".to_vec(), filename: filename.to_string() }
}

fn stat_at(path: &[u8]) -> FsCall {
    Call::StatAt { dir: ROOT_FD, path: path.to_vec() }
}

/// Runs a request on the outcomes of the calls that it has to make.
fn run(
    fs: &mut ProxyFs,
    start: FsStep,
    script: Vec<(FsCall, FsOutcome)>,
) -> (FsReply, Option<i32>) {
    let mut step = start;
    for (expected, outcome) in script {
        match step {
            Step::Call { call, next } => {
                assert_eq!(call, expected);
                assert!(next.accepts(&outcome));
                step = fs.resume(next, outcome);
            }
            Step::Finish { reply, .. } => panic!("finished early with {reply:?}"),
        }
    }
    match step {
        Step::Finish { reply, close } => (reply, close),
        Step::Call { call, .. } => panic!("one more call: {call:?}"),
    }
}

fn refused(step: FsStep, errno: i32) {
    assert_eq!(step, Step::Finish { reply: Reply::Failure(errno), close: None });
}

/// Makes the entry `name` of the root directory known.
fn look_up(fs: &mut ProxyFs, name: &[u8], st: Stat) {
    let start = fs.lookup(1, name);
    let path = [b"./", name].concat();
    let intercepted = fs.intercepts(name) && st.st_mode & S_IFREG == S_IFREG;
    let mut script = vec![(stat_at(&path), Outcome::Status(st))];
    if intercepted {
        script.push((query(std::str::from_utf8(name).unwrap()), rows(&[])));
    }
    assert!(matches!(run(fs, start, script), (Reply::Entry { .. }, None)));
}

/// Opens the file behind an inode number and returns its handle.
fn open_file(fs: &mut ProxyFs, ino: u64, path: &[u8], fd: i32) -> u64 {
    let start = fs.open(ino, 0);
    let call = Call::OpenAt { dir: ROOT_FD, path: path.to_vec(), flags: 0 };
    match run(fs, start, vec![(call, Outcome::Descriptor(fd))]) {
        (Reply::Opened { fh }, None) => fh,
        other => panic!("not opened: {other:?}"),
    }
}

#[test]
fn entry_is_looked_up() {
    let mut fs = filesystem();
    let start = fs.lookup(1, b"a.txt");
    let script = vec![(stat_at(b"./a.txt"), Outcome::Status(regular(50, 12)))];
    let expected = Reply::Entry { ttl: 1, attr: attr(50, 12) };
    assert_eq!(run(&mut fs, start, script), (expected, None));

    let start = fs.getattr(50);
    let script = vec![(stat_at(b"./a.txt"), Outcome::Status(regular(50, 13)))];
    let expected = Reply::Attr { ttl: 1, attr: attr(50, 13) };
    assert_eq!(run(&mut fs, start, script), (expected, None));
}

#[test]
fn entry_that_is_missing_stays_unknown() {
    let mut fs = filesystem();
    let start = fs.lookup(1, b"a.txt");
    let script = vec![(stat_at(b"./a.txt"), Outcome::Failure(ENOENT))];
    assert_eq!(run(&mut fs, start, script), (Reply::Failure(ENOENT), None));
    refused(fs.getattr(50), ENOENT);
}

#[test]
fn root_is_known_from_the_start() {
    let mut fs = filesystem();
    let start = fs.getattr(1);
    let script = vec![(stat_at(b"."), Outcome::Status(directory(2)))];
    match run(&mut fs, start, script) {
        (Reply::Attr { ttl, attr }, None) => {
            assert_eq!(ttl, 1);
            assert_eq!(attr.kind, FileType::Directory);
            assert_eq!(attr.perm, 0o755);
            assert_eq!(attr.ino, 2);
        }
        other => panic!("unexpected: {other:?}"),
    }
}

#[test]
fn intercepted_file_is_reported_with_its_inflated_size() {
    let mut fs = filesystem();
    let start = fs.lookup(1, b"NOTES.md");
    let script = vec![
        (stat_at(b"./NOTES.md"), Outcome::Status(regular(60, 4))),
        (query("NOTES.md"), rows(&["one", "two"])),
    ];
    let expected = Reply::Entry { ttl: 0, attr: attr(60, 11) };
    assert_eq!(run(&mut fs, start, script), (expected, None));

    let start = fs.getattr(60);
    let script = vec![
        (stat_at(b"./NOTES.md"), Outcome::Status(regular(60, 4))),
        (query("NOTES.md"), rows(&["one"])),
    ];
    let expected = Reply::Attr { ttl: 0, attr: attr(60, 8) };
    assert_eq!(run(&mut fs, start, script), (expected, None));
}

#[test]
fn intercepted_file_without_snippets_keeps_its_size() {
    for answer in [rows(&[]), rows(&[""]), Outcome::Unavailable] {
        let mut fs = filesystem();
        let start = fs.lookup(1, b"NOTES.md");
        let script = vec![
            (stat_at(b"./NOTES.md"), Outcome::Status(regular(60, 4))),
            (query("NOTES.md"), answer),
        ];
        let expected = Reply::Entry { ttl: 0, attr: attr(60, 4) };
        assert_eq!(run(&mut fs, start, script), (expected, None));
    }
}

#[test]
fn directory_with_an_intercepted_name_is_not_inflated() {
    let mut fs = filesystem();
    let start = fs.lookup(1, b"NOTES.md");
    let script = vec![(stat_at(b"./NOTES.md"), Outcome::Status(directory(60)))];
    match run(&mut fs, start, script) {
        (Reply::Entry { ttl, attr }, None) => {
            assert_eq!(ttl, 0);
            assert_eq!(attr.size, 4096);
        }
        other => panic!("unexpected: {other:?}"),
    }
}

#[test]
fn snippets_of_a_deeper_file_are_asked_for_by_its_path() {
    let mut fs = filesystem();
    look_up(&mut fs, b"docs", directory(40));
    let start = fs.lookup(40, b"NOTES.md");
    let script = vec![
        (stat_at(b"./docs/NOTES.md"), Outcome::Status(regular(41, 1))),
        (query("docs/NOTES.md"), rows(&["x"])),
    ];
    let expected = Reply::Entry { ttl: 0, attr: attr(41, 3) };
    assert_eq!(run(&mut fs, start, script), (expected, None));
}

#[test]
fn intercepted_file_is_read_in_pieces() {
    let mut fs = filesystem();
    look_up(&mut fs, b"NOTES.md", regular(60, 4));
    let fh = open_file(&mut fs, 60, b"./NOTES.md", 30);
    for (offset, size, expected) in [
        (0, 100, &b"real\nonetwo"[..]),
        (0, 4, b"real"),
        (3, 4, b"l\non"),
        (9, 100, b"wo"),
        (11, 5, b""),
        (u64::MAX, 5, b""),
    ] {
        let start = fs.read(60, fh, offset, size);
        let script = vec![
            (Call::Fstat { fd: 30 }, Outcome::Status(regular(60, 4))),
            (Call::Pread { fd: 30, len: 4, offset: 0 }, Outcome::Data(b"re".to_vec())),
            (Call::Pread { fd: 30, len: 2, offset: 2 }, Outcome::Data(b"al".to_vec())),
            (query("NOTES.md"), rows(&["one", "two"])),
        ];
        assert_eq!(run(&mut fs, start, script), (Reply::Data(expected.to_vec()), None));
    }
}

#[test]
fn reported_size_is_what_a_read_gives() {
    let mut fs = filesystem();
    look_up(&mut fs, b"NOTES.md", regular(60, 4));
    let fh = open_file(&mut fs, 60, b"./NOTES.md", 30);
    let start = fs.getattr(60);
    let script = vec![
        (stat_at(b"./NOTES.md"), Outcome::Status(regular(60, 4))),
        (query("NOTES.md"), rows(&["snippet"])),
    ];
    let size = match run(&mut fs, start, script) {
        (Reply::Attr { attr, .. }, None) => attr.size,
        other => panic!("unexpected: {other:?}"),
    };
    let start = fs.read(60, fh, 0, 1000);
    let script = vec![
        (Call::Fstat { fd: 30 }, Outcome::Status(regular(60, 4))),
        (Call::Pread { fd: 30, len: 4, offset: 0 }, Outcome::Data(b"real".to_vec())),
        (query("NOTES.md"), rows(&["snippet"])),
    ];
    match run(&mut fs, start, script) {
        (Reply::Data(data), None) => {
            assert_eq!(data, b"real\nsnippet".to_vec());
            assert_eq!(data.len() as u64, size);
        }
        other => panic!("unexpected: {other:?}"),
    }
}

#[test]
fn empty_intercepted_file_is_not_read() {
    let mut fs = filesystem();
    look_up(&mut fs, b"NOTES.md", regular(60, 0));
    let fh = open_file(&mut fs, 60, b"./NOTES.md", 30);
    let start = fs.read(60, fh, 0, 10);
    let script = vec![
        (Call::Fstat { fd: 30 }, Outcome::Status(regular(60, 0))),
        (query("NOTES.md"), rows(&["x"])),
    ];
    assert_eq!(run(&mut fs, start, script), (Reply::Data(b"\nx".to_vec()), None));
}

#[test]
fn read_that_ends_early_keeps_what_was_read() {
    for end in [Outcome::Data(Vec::new()), Outcome::Failure(EIO)] {
        let mut fs = filesystem();
        look_up(&mut fs, b"NOTES.md", regular(60, 4));
        let fh = open_file(&mut fs, 60, b"./NOTES.md", 30);
        let start = fs.read(60, fh, 0, 10);
        let script = vec![
            (Call::Fstat { fd: 30 }, Outcome::Status(regular(60, 4))),
            (Call::Pread { fd: 30, len: 4, offset: 0 }, Outcome::Data(b"re".to_vec())),
            (Call::Pread { fd: 30, len: 2, offset: 2 }, end),
            (query("NOTES.md"), rows(&["x"])),
        ];
        assert_eq!(run(&mut fs, start, script), (Reply::Data(b"re\nx".to_vec()), None));
    }
}

#[test]
fn intercepted_file_needs_the_database() {
    let mut fs = filesystem();
    look_up(&mut fs, b"NOTES.md", regular(60, 0));
    let fh = open_file(&mut fs, 60, b"./NOTES.md", 30);
    let start = fs.read(60, fh, 0, 10);
    let script = vec![
        (Call::Fstat { fd: 30 }, Outcome::Status(regular(60, 0))),
        (query("NOTES.md"), Outcome::Unavailable),
    ];
    assert_eq!(run(&mut fs, start, script), (Reply::Failure(EIO), None));

    let start = fs.read(60, fh, 0, 10);
    let script = vec![(Call::Fstat { fd: 30 }, Outcome::Failure(EBADF))];
    assert_eq!(run(&mut fs, start, script), (Reply::Failure(EBADF), None));
}

#[test]
fn other_files_are_read_as_they_are() {
    let mut fs = filesystem();
    look_up(&mut fs, b"a.txt", regular(50, 12));
    let fh = open_file(&mut fs, 50, b"./a.txt", 31);
    let start = fs.read(50, fh, 5, 100);
    let call = Call::Pread { fd: 31, len: 100, offset: 5 };
    let script = vec![(call, Outcome::Data(b"content".to_vec()))];
    assert_eq!(run(&mut fs, start, script), (Reply::Data(b"content".to_vec()), None));

    let start = fs.read(50, fh, u64::MAX, 1);
    let call = Call::Pread { fd: 31, len: 1, offset: -1 };
    let script = vec![(call, Outcome::Failure(22))];
    assert_eq!(run(&mut fs, start, script), (Reply::Failure(22), None));
}

#[test]
fn written_bytes_are_counted() {
    let mut fs = filesystem();
    look_up(&mut fs, b"NOTES.md", regular(60, 4));
    let fh = open_file(&mut fs, 60, b"./NOTES.md", 30);
    let start = fs.write(fh, 9, b"abc");
    let call = Call::Pwrite { fd: 30, data: b"abc".to_vec(), offset: 9 };
    let script = vec![(call, Outcome::Count(2))];
    assert_eq!(run(&mut fs, start, script), (Reply::Written(2), None));

    let start = fs.write(fh, 9, b"abc");
    let call = Call::Pwrite { fd: 30, data: b"abc".to_vec(), offset: 9 };
    let script = vec![(call, Outcome::Failure(28))];
    assert_eq!(run(&mut fs, start, script), (Reply::Failure(28), None));
    refused(fs.write(fh + 1, 0, b"abc"), EBADF);
}

#[test]
fn handles_are_numbered_and_released() {
    let mut fs = filesystem();
    look_up(&mut fs, b"a.txt", regular(50, 12));
    assert_eq!(open_file(&mut fs, 50, b"./a.txt", 31), 1);
    assert_eq!(open_file(&mut fs, 50, b"./a.txt", 32), 2);
    let start = fs.opendir(1);
    let call = Call::OpenDirAt { dir: ROOT_FD, path: b".".to_vec() };
    let script = vec![(call, Outcome::Descriptor(33))];
    assert_eq!(run(&mut fs, start, script), (Reply::Opened { fh: 3 }, None));

    let released = |close| Step::Finish { reply: Reply::Empty, close };
    assert_eq!(fs.release(3), released(None));
    assert_eq!(fs.releasedir(1), released(None));
    assert_eq!(fs.release(1), released(Some(31)));
    assert_eq!(fs.release(1), released(None));
    assert_eq!(fs.releasedir(3), released(Some(33)));
    refused(fs.read(50, 1, 0, 1), EBADF);
    assert_eq!(open_file(&mut fs, 50, b"./a.txt", 31), 4);
}

#[test]
fn file_is_opened_without_the_flags_that_change_it() {
    let mut fs = filesystem();
    look_up(&mut fs, b"a.txt", regular(50, 12));
    let start = fs.open(50, O_RDWR | O_APPEND | O_TRUNC | O_CREAT);
    let call = Call::OpenAt { dir: ROOT_FD, path: b"./a.txt".to_vec(), flags: O_RDWR };
    let script = vec![(call, Outcome::Failure(13))];
    assert_eq!(run(&mut fs, start, script), (Reply::Failure(13), None));
}

fn entry(ino: u64, name: &[u8], kind: Option<FileType>) -> Option<RawEntry<Vec<u8>>> {
    Some(RawEntry { ino, name: name.to_vec(), kind })
}

fn item(ino: u64, next: u64, kind: FileType, name: &[u8]) -> DirItem<Vec<u8>> {
    DirItem { ino, next, kind, name: name.to_vec() }
}

#[test]
fn directory_is_listed_from_an_offset_on() {
    let mut fs = filesystem();
    look_up(&mut fs, b"docs", directory(40));
    let start = fs.opendir(40);
    let call = Call::OpenDirAt { dir: ROOT_FD, path: b"./docs".to_vec() };
    run(&mut fs, start, vec![(call, Outcome::Descriptor(33))]);
    let all = [
        item(40, 1, FileType::Directory, b"."),
        item(2, 2, FileType::Directory, b".."),
        item(42, 3, FileType::RegularFile, b"a"),
        item(43, 4, FileType::Symlink, b"b"),
    ];
    for offset in 0..6 {
        let start = fs.readdir(40, 1, offset);
        let entries = vec![
            entry(40, b".", Some(FileType::Directory)),
            entry(2, b"..", Some(FileType::Directory)),
            None,
            entry(0, b"gone", Some(FileType::RegularFile)),
            entry(42, b"a", None),
            entry(43, b"b", Some(FileType::Symlink)),
        ];
        let script = vec![(Call::ListDir { fd: 33 }, Outcome::Entries(entries))];
        let (reply, close) = run(&mut fs, start, script);
        assert_eq!(close, None);
        match reply {
            Reply::Directory(items) => {
                assert_eq!(&items[..], &all[(offset as usize).min(all.len())..])
            }
            other => panic!("unexpected: {other:?}"),
        }
    }
    let start = fs.readlink(43);
    let call = Call::ReadlinkAt { dir: ROOT_FD, path: b"./docs/b".to_vec(), len: PATH_MAX };
    let script = vec![(call, Outcome::Data(b"a".to_vec()))];
    assert_eq!(run(&mut fs, start, script), (Reply::Data(b"a".to_vec()), None));
    refused(fs.getattr(2), ENOENT);
}

#[test]
fn directory_that_cannot_be_read_is_not_listed() {
    let mut fs = filesystem();
    let start = fs.opendir(1);
    let call = Call::OpenDirAt { dir: ROOT_FD, path: b".".to_vec() };
    run(&mut fs, start, vec![(call, Outcome::Descriptor(33))]);
    let start = fs.readdir(1, 1, 0);
    let script = vec![(Call::ListDir { fd: 33 }, Outcome::Failure(24))];
    assert_eq!(run(&mut fs, start, script), (Reply::Failure(24), None));
    refused(fs.readdir(1, 2, 0), EBADF);
    refused(fs.readdir(9, 1, 0), ENOENT);
}

#[test]
fn file_is_created_and_open() {
    let mut fs = filesystem();
    let start = fs.create(1, b"new", 0o600, O_WRONLY);
    let call = Call::CreateAt {
        dir: ROOT_FD,
        path: b"./new".to_vec(),
        flags: O_WRONLY | O_CREAT,
        mode: 0o600,
    };
    let script = vec![
        (call, Outcome::Descriptor(35)),
        (Call::Fstat { fd: 35 }, Outcome::Status(regular(51, 0))),
    ];
    let expected = Reply::Created { ttl: 1, attr: attr(51, 0), fh: 1 };
    assert_eq!(run(&mut fs, start, script), (expected, None));
    let start = fs.fsync(1, false);
    let script = vec![(Call::Fsync { fd: 35, data_only: false }, Outcome::Success)];
    assert_eq!(run(&mut fs, start, script), (Reply::Empty, None));
    assert!(matches!(fs.getattr(51), Step::Call { .. }));
}

#[test]
fn created_file_may_be_intercepted() {
    let mut fs = filesystem();
    let start = fs.create(1, b"NOTES.md", 0o644, 0);
    let call = Call::CreateAt {
        dir: ROOT_FD,
        path: b"./NOTES.md".to_vec(),
        flags: O_CREAT,
        mode: 0o644,
    };
    let script = vec![
        (call, Outcome::Descriptor(35)),
        (Call::Fstat { fd: 35 }, Outcome::Status(regular(51, 0))),
        (query("NOTES.md"), rows(&["x"])),
    ];
    let expected = Reply::Created { ttl: 0, attr: attr(51, 2), fh: 1 };
    assert_eq!(run(&mut fs, start, script), (expected, None));
    assert_eq!(fs.release(1), Step::Finish { reply: Reply::Empty, close: Some(35) });
}

#[test]
fn created_file_without_a_status_is_closed() {
    let mut fs = filesystem();
    let start = fs.create(1, b"new", 0o600, 0);
    let call = Call::CreateAt {
        dir: ROOT_FD,
        path: b"./new".to_vec(),
        flags: O_CREAT,
        mode: 0o600,
    };
    let script = vec![
        (call, Outcome::Descriptor(35)),
        (Call::Fstat { fd: 35 }, Outcome::Failure(EIO)),
    ];
    assert_eq!(run(&mut fs, start, script), (Reply::Failure(EIO), Some(35)));
}

fn open_to_change(flags: i32) -> FsCall {
    Call::OpenNoFollowAt { dir: ROOT_FD, path: b"./a.txt".to_vec(), flags }
}

#[test]
fn attributes_are_changed_in_order() {
    let mut fs = filesystem();
    look_up(&mut fs, b"a.txt", regular(50, 12));
    let time = TimeOrNow::SpecificTime(SysTime { secs: 5, nanos: 6 });
    let start =
        fs.setattr(50, Some(0o600), Some(3), None, Some(9), Some(time), None, None);
    let script = vec![
        (open_to_change(O_RDWR), Outcome::Failure(13)),
        (open_to_change(O_WRONLY), Outcome::Descriptor(36)),
        (Call::Fchmod { fd: 36, mode: 0o600 }, Outcome::Success),
        (Call::Fchown { fd: 36, uid: 3, gid: u32::MAX }, Outcome::Success),
        (Call::Ftruncate { fd: 36, size: 9 }, Outcome::Success),
        (
            Call::Futimens {
                fd: 36,
                atime: Timespec { tv_sec: 5, tv_nsec: 6 },
                mtime: Timespec { tv_sec: 0, tv_nsec: UTIME_OMIT },
            },
            Outcome::Success,
        ),
        (stat_at(b"./a.txt"), Outcome::Status(regular(50, 9))),
    ];
    let expected = Reply::Attr { ttl: 1, attr: attr(50, 9) };
    assert_eq!(run(&mut fs, start, script), (expected, Some(36)));
}

#[test]
fn attributes_are_changed_through_a_handle() {
    let mut fs = filesystem();
    look_up(&mut fs, b"NOTES.md", regular(60, 4));
    let fh = open_file(&mut fs, 60, b"./NOTES.md", 30);
    let start = fs.setattr(60, None, None, None, Some(2), None, None, Some(fh));
    let script = vec![
        (Call::Ftruncate { fd: 30, size: 2 }, Outcome::Success),
        (stat_at(b"./NOTES.md"), Outcome::Status(regular(60, 2))),
        (query("NOTES.md"), rows(&["x"])),
    ];
    let expected = Reply::Attr { ttl: 0, attr: attr(60, 4) };
    assert_eq!(run(&mut fs, start, script), (expected, None));
    refused(fs.setattr(60, None, None, None, None, None, None, Some(fh + 1)), EBADF);
}

#[test]
fn failed_change_closes_the_file() {
    let mut fs = filesystem();
    look_up(&mut fs, b"a.txt", regular(50, 12));
    let start = fs.setattr(50, Some(0o600), None, None, Some(9), None, None, None);
    let script = vec![
        (open_to_change(O_RDWR), Outcome::Descriptor(36)),
        (Call::Fchmod { fd: 36, mode: 0o600 }, Outcome::Failure(1)),
    ];
    assert_eq!(run(&mut fs, start, script), (Reply::Failure(1), Some(36)));

    let start = fs.setattr(50, None, None, None, None, None, None, None);
    let script = vec![
        (open_to_change(O_RDWR), Outcome::Descriptor(36)),
        (stat_at(b"./a.txt"), Outcome::Failure(ENOENT)),
    ];
    assert_eq!(run(&mut fs, start, script), (Reply::Failure(ENOENT), Some(36)));

    let start = fs.setattr(50, None, None, None, Some(0), None, None, None);
    let script = vec![
        (open_to_change(O_RDWR), Outcome::Failure(13)),
        (open_to_change(O_WRONLY), Outcome::Failure(26)),
    ];
    assert_eq!(run(&mut fs, start, script), (Reply::Failure(26), None));
}

#[test]
fn new_mode_of_a_directory_is_passed_through() {
    let mut fs = filesystem();
    look_up(&mut fs, b"docs", directory(40));
    let open = |flags| Call::OpenNoFollowAt { dir: ROOT_FD, path: b"./docs".to_vec(), flags };
    let start = fs.setattr(40, Some(0o700), None, None, None, None, None, None);
    let changed = Stat { st_mode: S_IFDIR | 0o700, ..directory(40) };
    let script = vec![
        (open(O_RDWR), Outcome::Failure(libc::EISDIR)),
        (open(O_WRONLY), Outcome::Failure(libc::EISDIR)),
        (
            Call::FchmodAt { dir: ROOT_FD, path: b"./docs".to_vec(), mode: 0o700 },
            Outcome::Success,
        ),
        (stat_at(b"./docs"), Outcome::Status(changed)),
    ];
    match run(&mut fs, start, script) {
        (Reply::Attr { ttl, attr }, close) => {
            assert_eq!(ttl, 1);
            assert_eq!(attr.kind, FileType::Directory);
            assert_eq!(attr.perm, 0o700);
            assert_eq!(close, None);
        }
        other => panic!("unexpected: {other:?}"),
    }
}

#[test]
fn file_that_cannot_be_opened_is_changed_by_its_path() {
    let mut fs = filesystem();
    look_up(&mut fs, b"a.txt", regular(50, 12));
    let path = || b"./a.txt".to_vec();
    let time = TimeOrNow::SpecificTime(SysTime { secs: 5, nanos: 6 });
    let start = fs.setattr(50, Some(0o644), None, Some(7), None, None, Some(time), None);
    let script = vec![
        (open_to_change(O_RDWR), Outcome::Failure(libc::EACCES)),
        (open_to_change(O_WRONLY), Outcome::Failure(libc::EACCES)),
        (Call::FchmodAt { dir: ROOT_FD, path: path(), mode: 0o644 }, Outcome::Success),
        (
            Call::FchownAt { dir: ROOT_FD, path: path(), uid: u32::MAX, gid: 7 },
            Outcome::Success,
        ),
        (
            Call::UtimensAt {
                dir: ROOT_FD,
                path: path(),
                atime: Timespec { tv_sec: 0, tv_nsec: UTIME_OMIT },
                mtime: Timespec { tv_sec: 5, tv_nsec: 6 },
            },
            Outcome::Success,
        ),
        (stat_at(b"./a.txt"), Outcome::Status(regular(50, 12))),
    ];
    let expected = Reply::Attr { ttl: 1, attr: attr(50, 12) };
    assert_eq!(run(&mut fs, start, script), (expected, None));

    let start = fs.setattr(50, Some(0o644), Some(0), None, None, None, None, None);
    let script = vec![
        (open_to_change(O_RDWR), Outcome::Failure(libc::EACCES)),
        (open_to_change(O_WRONLY), Outcome::Failure(libc::EACCES)),
        (Call::FchmodAt { dir: ROOT_FD, path: path(), mode: 0o644 }, Outcome::Success),
        (
            Call::FchownAt { dir: ROOT_FD, path: path(), uid: 0, gid: u32::MAX },
            Outcome::Failure(libc::EPERM),
        ),
    ];
    assert_eq!(run(&mut fs, start, script), (Reply::Failure(libc::EPERM), None));
}

#[test]
fn deleted_entries_are_forgotten() {
    let mut fs = filesystem();
    look_up(&mut fs, b"a.txt", regular(50, 12));
    look_up(&mut fs, b"docs", directory(40));

    let start = fs.unlink(1, b"a.txt");
    let call = Call::UnlinkAt { dir: ROOT_FD, path: b"./a.txt".to_vec(), directory: false };
    let script = vec![(call, Outcome::Failure(1))];
    assert_eq!(run(&mut fs, start, script), (Reply::Failure(1), None));
    assert!(matches!(fs.getattr(50), Step::Call { .. }));

    let start = fs.unlink(1, b"a.txt");
    let call = Call::UnlinkAt { dir: ROOT_FD, path: b"./a.txt".to_vec(), directory: false };
    let script = vec![(call, Outcome::Success)];
    assert_eq!(run(&mut fs, start, script), (Reply::Empty, None));
    refused(fs.getattr(50), ENOENT);

    let start = fs.rmdir(1, b"docs");
    let call = Call::UnlinkAt { dir: ROOT_FD, path: b"./docs".to_vec(), directory: true };
    let script = vec![(call, Outcome::Success)];
    assert_eq!(run(&mut fs, start, script), (Reply::Empty, None));
    refused(fs.opendir(40), ENOENT);
}

#[test]
fn renamed_entry_keeps_its_inode_number() {
    let mut fs = filesystem();
    look_up(&mut fs, b"a.txt", regular(50, 12));
    look_up(&mut fs, b"docs", directory(40));
    let start = fs.rename(1, b"a.txt", 40, b"b.txt", 1);
    let call = Call::RenameAt {
        dir: ROOT_FD,
        old_path: b"./a.txt".to_vec(),
        new_path: b"./docs/b.txt".to_vec(),
        flags: 1,
    };
    let script = vec![(call, Outcome::Success)];
    assert_eq!(run(&mut fs, start, script), (Reply::Empty, None));
    let start = fs.access(50, 4);
    let call = Call::AccessAt { dir: ROOT_FD, path: b"./docs/b.txt".to_vec(), mask: 4 };
    let script = vec![(call, Outcome::Success)];
    assert_eq!(run(&mut fs, start, script), (Reply::Empty, None));
    refused(fs.rename(9, b"a", 1, b"b", 0), ENOENT);
    refused(fs.rename(1, b"a", 9, b"b", 0), ENOENT);
}

#[test]
fn rename_that_is_refused_changes_nothing() {
    let mut fs = filesystem();
    look_up(&mut fs, b"a.txt", regular(50, 12));
    look_up(&mut fs, b"b.txt", regular(51, 12));
    let start = fs.rename(1, b"a.txt", 1, b"b.txt", 1);
    let call = Call::RenameAt {
        dir: ROOT_FD,
        old_path: b"./a.txt".to_vec(),
        new_path: b"./b.txt".to_vec(),
        flags: 1,
    };
    let script = vec![(call, Outcome::Failure(17))];
    assert_eq!(run(&mut fs, start, script), (Reply::Failure(17), None));
    let path_of = |step| match step {
        Step::Call { call: Call::StatAt { path, .. }, .. } => path,
        other => panic!("unexpected: {other:?}"),
    };
    assert_eq!(path_of(fs.getattr(50)), b"./a.txt".to_vec());
    assert_eq!(path_of(fs.getattr(51)), b"./b.txt".to_vec());
}

#[test]
fn exchanged_entries_swap_their_inode_numbers() {
    let mut fs = filesystem();
    look_up(&mut fs, b"a.txt", regular(50, 12));
    look_up(&mut fs, b"b.txt", regular(51, 12));
    let start = fs.rename(1, b"a.txt", 1, b"b.txt", RENAME_EXCHANGE);
    let call = Call::RenameAt {
        dir: ROOT_FD,
        old_path: b"./a.txt".to_vec(),
        new_path: b"./b.txt".to_vec(),
        flags: RENAME_EXCHANGE,
    };
    let script = vec![(call, Outcome::Success)];
    assert_eq!(run(&mut fs, start, script), (Reply::Empty, None));
    let path_of = |step| match step {
        Step::Call { call: Call::StatAt { path, .. }, .. } => path,
        other => panic!("unexpected: {other:?}"),
    };
    assert_eq!(path_of(fs.getattr(50)), b"./b.txt".to_vec());
    assert_eq!(path_of(fs.getattr(51)), b"./a.txt".to_vec());
}

#[test]
fn directories_and_links_are_made() {
    let mut fs = filesystem();
    look_up(&mut fs, b"a.txt", regular(50, 12));

    let start = fs.mkdir(1, b"sub", 0o700);
    let call = Call::MkdirAt { dir: ROOT_FD, path: b"./sub".to_vec(), mode: 0o700 };
    let script = vec![
        (call, Outcome::Success),
        (stat_at(b"./sub"), Outcome::Status(directory(44))),
    ];
    assert!(matches!(run(&mut fs, start, script), (Reply::Entry { ttl: 1, .. }, None)));
    assert!(matches!(fs.opendir(44), Step::Call { .. }));

    let start = fs.symlink(44, b"s", b"/target");
    let call = Call::SymlinkAt {
        target: b"/target".to_vec(),
        dir: ROOT_FD,
        path: b"./sub/s".to_vec(),
    };
    let script = vec![
        (call, Outcome::Success),
        (stat_at(b"./sub/s"), Outcome::Status(regular(45, 7))),
    ];
    let expected = Reply::Entry { ttl: 1, attr: attr(45, 7) };
    assert_eq!(run(&mut fs, start, script), (expected, None));

    let start = fs.link(50, 44, b"NOTES.md");
    let call = Call::LinkAt {
        dir: ROOT_FD,
        old_path: b"./a.txt".to_vec(),
        new_path: b"./sub/NOTES.md".to_vec(),
    };
    let script = vec![
        (call, Outcome::Success),
        (stat_at(b"./sub/NOTES.md"), Outcome::Status(regular(50, 12))),
        (query("sub/NOTES.md"), rows(&["x"])),
    ];
    let expected = Reply::Entry { ttl: 1, attr: attr(50, 14) };
    assert_eq!(run(&mut fs, start, script), (expected, None));
}

#[test]
fn making_may_fail_at_either_call() {
    let mut fs = filesystem();
    let call = || Call::MkdirAt { dir: ROOT_FD, path: b"./sub".to_vec(), mode: 0o700 };
    let start = fs.mkdir(1, b"sub", 0o700);
    let script = vec![(call(), Outcome::Failure(17))];
    assert_eq!(run(&mut fs, start, script), (Reply::Failure(17), None));
    let start = fs.mkdir(1, b"sub", 0o700);
    let script = vec![
        (call(), Outcome::Success),
        (stat_at(b"./sub"), Outcome::Failure(ENOENT)),
    ];
    assert_eq!(run(&mut fs, start, script), (Reply::Failure(ENOENT), None));
}

#[test]
fn target_with_a_nul_byte_is_empty() {
    let fs = filesystem();
    match fs.symlink(1, b"s", b"a\0b") {
        Step::Call { call: Call::SymlinkAt { target, .. }, .. } => assert!(target.is_empty()),
        other => panic!("unexpected: {other:?}"),
    }
}

#[test]
fn unknown_inode_numbers_are_refused() {
    let fs = filesystem();
    refused(fs.lookup(9, b"a"), ENOENT);
    refused(fs.getattr(9), ENOENT);
    refused(fs.opendir(9), ENOENT);
    refused(fs.open(9, 0), ENOENT);
    refused(fs.read(9, 1, 0, 1), ENOENT);
    refused(fs.access(9, 0), ENOENT);
    refused(fs.readlink(9), ENOENT);
    refused(fs.setattr(9, None, None, None, None, None, None, None), ENOENT);
    refused(fs.create(9, b"a", 0, 0), ENOENT);
    refused(fs.unlink(9, b"a"), ENOENT);
    refused(fs.rmdir(9, b"a"), ENOENT);
    refused(fs.mkdir(9, b"a", 0), ENOENT);
    refused(fs.symlink(9, b"a", b"b"), ENOENT);
    refused(fs.link(9, 1, b"a"), ENOENT);
    refused(fs.link(1, 9, b"a"), ENOENT);
}

#[test]
fn unknown_handles_are_refused() {
    let fs = filesystem();
    refused(fs.read(1, 1, 0, 1), EBADF);
    refused(fs.write(1, 0, b"a"), EBADF);
    refused(fs.fsync(1, true), EBADF);
    refused(fs.readdir(1, 1, 0), EBADF);
}

#[test]
fn usage_is_reported() {
    let mut fs = filesystem();
    let st = StatVfs {
        f_blocks: 1,
        f_bfree: 2,
        f_bavail: 3,
        f_files: 4,
        f_ffree: 5,
        f_bsize: 0x1_0000_1000,
        f_namemax: 255,
        f_frsize: 512,
    };
    let expected = FsUsage {
        blocks: 1,
        bfree: 2,
        bavail: 3,
        files: 4,
        ffree: 5,
        bsize: 0x1000,
        namelen: 255,
        frsize: 512,
    };
    let start = fs.statfs();
    let script = vec![(Call::Fstatvfs { fd: ROOT_FD }, Outcome::Filesystem(st))];
    assert_eq!(run(&mut fs, start, script), (Reply::Usage(expected), None));
}

#[test]
fn flush_is_acknowledged() {
    let fs = filesystem();
    assert_eq!(fs.flush(), Step::Finish { reply: Reply::Empty, close: None });
}

#[test]
fn name_with_a_nul_byte_stands_for_the_root() {
    let fs = filesystem();
    match fs.lookup(1, b"a\0b") {
        Step::Call { call, .. } => assert_eq!(call, stat_at(b".")),
        other => panic!("unexpected: {other:?}"),
    }
}

#[test]
fn outcomes_of_another_kind_are_not_accepted() {
    let fs = filesystem();
    let next = |step: FsStep| match step {
        Step::Call { next, .. } => next,
        other => panic!("unexpected: {other:?}"),
    };
    let pending = next(fs.getattr(1));
    assert!(pending.accepts(&Outcome::Status(directory(2))));
    assert!(pending.accepts(&Outcome::Failure(EIO)));
    assert!(!pending.accepts(&Outcome::Success));
    assert!(!pending.accepts(&Outcome::Descriptor(3)));
    let late = Stat { st_mtime: i64::MAX, st_mtime_nsec: 1_000_000_000, ..directory(2) };
    assert!(!pending.accepts(&Outcome::Status(late)));
    let pending = next(fs.opendir(1));
    assert!(pending.accepts(&Outcome::Descriptor(3)));
    assert!(!pending.accepts(&Outcome::Data(Vec::new())));
}

#[test]
fn read_gives_no_more_than_was_asked_for() {
    let mut fs = filesystem();
    look_up(&mut fs, b"NOTES.md", regular(60, 4));
    let fh = open_file(&mut fs, 60, b"./NOTES.md", 30);
    let start = fs.read(60, fh, 0, 10);
    let next = match start {
        Step::Call { next, .. } => next,
        other => panic!("unexpected: {other:?}"),
    };
    match fs.resume(next, Outcome::Status(regular(60, 4))) {
        Step::Call { next, .. } => {
            assert!(next.accepts(&Outcome::Data(b"real".to_vec())));
            assert!(!next.accepts(&Outcome::Data(b"real!".to_vec())));
        }
        other => panic!("unexpected: {other:?}"),
    }
}

#[test]
fn windows_of_consecutive_reads_join() {
    let full = b"0123456789".to_vec();
    for first in 0..12u32 {
        let a = read_window(&full, 2, first);
        let b = read_window(&full, 2 + first as u64, 5);
        assert_eq!([a, b].concat(), read_window(&full, 2, first + 5));
    }
    assert_eq!(read_window(&full, 0, 10), full);
    assert_eq!(read_window(&full, 10, 10), Vec::<u8>::new());
}

#[test]
fn entries_stand_for_paths() {
    assert_eq!(child_path(b"./a", b"."), b"./a".to_vec());
    assert_eq!(child_path(b"./a", b".."), b".".to_vec());
    assert_eq!(child_path(b".", b".."), b"".to_vec());
    assert_eq!(child_path(b"", b".."), b".".to_vec());
    assert_eq!(child_path(b"./a", b"b"), b"./a/b".to_vec());
    assert_eq!(child_path(b"./a", b"..."), b"./a/...".to_vec());
}

#[test]
fn attributes_tell_the_size_that_readers_see() {
    assert_eq!(stat_to_attr(&regular(5, 4), None), attr(5, 4));
    assert_eq!(stat_to_attr(&regular(5, 4), Some(b"")), attr(5, 4));
    assert_eq!(stat_to_attr(&regular(5, 4), Some(b"abc")), attr(5, 8));
}

#[test]
fn time_to_live_goes_by_the_name() {
    let fs = filesystem();
    assert_eq!(fs.ttl_for(b"./NOTES.md"), 0);
    assert_eq!(fs.ttl_for(b"./docs/NOTES.md"), 0);
    assert_eq!(fs.ttl_for(b"./NOTES.md/a"), 1);
    assert_eq!(fs.ttl_for(b"."), 1);
}
