use backup_fam::config::{init, Config};
use backup_fam::watched_fs::{
    check_directory, DirectoryEntry, Entry, FileAttributes, FileKind, FsError, Times, Timestamp, WatchedFilesystem,
};

const TIMES: Times = Times {
    atime: Timestamp { sec: 1_700_000_000, nsec: 5 },
    mtime: Timestamp { sec: 1_700_000_001, nsec: 6 },
    ctime: Timestamp { sec: 1_700_000_002, nsec: 7 },
    crtime: Timestamp { sec: 1_700_000_003, nsec: 8 },
};

fn attr(kind: FileKind, size: u64, perm: u16) -> Entry {
    Entry {
        ttl: Timestamp { sec: 1, nsec: 0 },
        attr: FileAttributes {
            size,
            blocks: 1,
            atime: TIMES.atime,
            mtime: TIMES.mtime,
            ctime: TIMES.ctime,
            crtime: TIMES.crtime,
            kind,
            perm,
            nlink: 1,
            uid: 1000,
            gid: 100,
            rdev: 0,
            flags: 0,
        },
    }
}

#[test]
fn check_directory_accepts_a_directory() {
    assert_eq!(check_directory("/tmp", true, true), Ok(()));
}

#[test]
fn check_directory_reports_a_missing_path() {
    assert_eq!(check_directory("/nope", false, false), Err("/nope does not exist!".to_string()));
    assert_eq!(check_directory("/nope", false, true), Err("/nope does not exist!".to_string()));
}

#[test]
fn check_directory_reports_a_file() {
    assert_eq!(check_directory("/etc/hosts", true, false), Err("/etc/hosts is not a directory!".to_string()));
}

#[test]
fn new_keeps_the_backing_directory() {
    let fs = WatchedFilesystem::new("/var/backing");
    assert_eq!(fs.backing_directory(), "/var/backing");
    assert_eq!(fs.init(), Ok(()));
}

#[test]
fn getattr_knows_the_directory_and_the_file() {
    let fs = WatchedFilesystem::new("/b");
    assert_eq!(fs.getattr_at("/", 1000, 100, TIMES), Ok(attr(FileKind::Directory, 1024, 0b101_000_000)));
    assert_eq!(fs.getattr_at("/neato", 1000, 100, TIMES), Ok(attr(FileKind::RegularFile, 8, 0b100_000_000)));
    assert_eq!(fs.getattr_at("/other", 1000, 100, TIMES), Err(FsError::NoData));
}

#[test]
fn getattr_stamps_entries_with_the_clock() {
    let fs = WatchedFilesystem::new("/b");
    let entry = fs.getattr("/neato", 1000, 100).unwrap();
    let a = entry.attr;
    let times = Times { atime: a.atime, mtime: a.mtime, ctime: a.ctime, crtime: a.crtime };
    assert_eq!(Ok(entry), fs.getattr_at("/neato", 1000, 100, times));
    for t in [a.atime, a.mtime, a.ctime, a.crtime] {
        assert!(t.sec > 1_000_000_000);
        assert!(0 <= t.nsec && t.nsec < 1_000_000_000);
    }
    assert_eq!(fs.getattr("/", 1, 2).unwrap().attr.kind, FileKind::Directory);
    assert_eq!(fs.getattr("/other", 1000, 100), Err(FsError::NoData));
}

#[test]
fn directories_open_list_and_close() {
    let fs = WatchedFilesystem::new("/b");
    assert_eq!(fs.opendir("/", 5), Ok((0, 5)));
    assert_eq!(fs.opendir("/neato", 5), Err(FsError::NotPermitted));
    assert_eq!(fs.readdir("/"), Ok(vec![DirectoryEntry { name: "neato".to_string(), kind: FileKind::RegularFile }]));
    assert_eq!(fs.readdir("/x"), Err(FsError::NotPermitted));
    assert_eq!(fs.releasedir("/"), Ok(()));
    assert_eq!(fs.releasedir("/x"), Err(FsError::NotPermitted));
}

#[test]
fn the_file_opens_under_its_handle() {
    let fs = WatchedFilesystem::new("/b");
    assert_eq!(fs.open("/neato", 3), Ok((42, 3)));
    assert_eq!(fs.open("/", 3), Err(FsError::NotPermitted));
    assert_eq!(fs.release("/neato", 42, 0, 0, false), Ok(()));
}

#[test]
fn read_returns_the_asked_part_of_the_content() {
    let fs = WatchedFilesystem::new("/b");
    assert_eq!(fs.read("/neato", 42, 0, 4096), Ok(b"burrito\n".to_vec()));
    assert_eq!(fs.read("/neato", 42, 0, 8), Ok(b"burrito\n".to_vec()));
    assert_eq!(fs.read("/neato", 42, 0, 3), Ok(b"bur".to_vec()));
    assert_eq!(fs.read("/neato", 42, 3, 2), Ok(b"ri".to_vec()));
    assert_eq!(fs.read("/neato", 42, 7, u32::MAX), Ok(b"\n".to_vec()));
    assert_eq!(fs.read("/neato", 42, 2, 0), Ok(vec![]));
}

#[test]
fn read_refuses_other_handles_and_offsets_past_the_end() {
    let fs = WatchedFilesystem::new("/b");
    assert_eq!(fs.read("/neato", 42, 8, 1), Err(FsError::NoSuchDevice));
    assert_eq!(fs.read("/neato", 42, u64::MAX, 1), Err(FsError::NoSuchDevice));
    assert_eq!(fs.read("/neato", 41, 0, 1), Err(FsError::NoSuchDevice));
}

#[test]
fn read_never_gives_the_content_for_another_path() {
    let fs = WatchedFilesystem::new("/b");
    assert_eq!(fs.read("/other", 42, 0, 8), Err(FsError::NoSuchDevice));
    assert_eq!(fs.read("/", 42, 0, 8), Err(FsError::NoSuchDevice));
    assert_eq!(fs.read("/neato/", 42, 0, 8), Err(FsError::NoSuchDevice));
    assert_eq!(fs.read("", 42, 0, 8), Err(FsError::NoSuchDevice));
}

#[test]
fn write_is_refused() {
    let fs = WatchedFilesystem::new("/b");
    assert_eq!(fs.write("/neato", 42, 0, &vec![1], 0), Err(FsError::NotPermitted));
}

#[test]
fn config_reports_its_directories() {
    let config = Config { watched_dirs: vec!["/a".to_string(), "/b c".to_string()], contribution_in_bytes: 10 };
    assert_eq!(
        config.print(),
        vec!["Configured watched directories".to_string(), "    - /a".to_string(), "    - /b c".to_string()]
    );
    assert_eq!(
        init(&config),
        vec![
            "Starting file monitoring".to_string(),
            "Configured watched directories".to_string(),
            "    - /a".to_string(),
            "    - /b c".to_string(),
        ]
    );
}

#[test]
fn config_without_directories_reports_the_heading() {
    let config = Config { watched_dirs: vec![], contribution_in_bytes: 0 };
    assert_eq!(config.print(), vec!["Configured watched directories".to_string()]);
}
