use fpatch::configs::{PatchType, PatchedFile};
use fpatch::fuse::{before_first_byte, entry_name, FsError, MirrorFileSystem, StatInfo};

fn stat_with(ino: u64, size: u64) -> StatInfo {
    StatInfo {
        ino,
        size,
        blocks: 0,
        mode: 0o100644,
        nlink: 1,
        uid: 0,
        gid: 0,
        rdev: 0,
        blksize: 4096,
        atime_sec: 0,
        atime_nsec: 0,
        mtime_sec: 0,
        mtime_nsec: 0,
        ctime_sec: 0,
        ctime_nsec: 0,
    }
}

fn patch(path: &[u8]) -> PatchedFile {
    PatchedFile { patch_type: PatchType::Replace, path: path.to_vec(), content: b"X".to_vec() }
}

#[test]
fn known_digest_renders_as_lowercase_hex() {
    // md5("abc") is the classic 900150983cd24fb0d6963f7d28e17f72.
    let h = <Vec<u8> as fpatch::hash::Hash>::hash(&b"abc".to_vec());
    assert_eq!(h, b"900150983cd24fb0d6963f7d28e17f72".to_vec());
}

#[test]
fn name_round_trips_to_path_hash() {
    // Splitting an entry name at the first ':' yields the path's digest.
    let path = b"/tmp/a.txt".to_vec();
    let name = entry_name(&path);
    let prefix = before_first_byte(&name, 58);
    assert_eq!(prefix, <Vec<u8> as fpatch::hash::Hash>::hash(&path));
}

#[test]
fn name_ends_with_basename() {
    let path = b"/tmp/a.txt".to_vec();
    let name = entry_name(&path);
    assert!(name.ends_with(b":a.txt"));
    assert_eq!(name.len(), 32 + 1 + 5);
}

#[test]
fn basename_of_path() {
    let p = b"/usr/local/bin/tool".to_vec();
    assert_eq!(<Vec<u8> as fpatch::dirs::FileNameString>::name_string(&p), b"tool".to_vec());
    let bare = b"plain".to_vec();
    assert_eq!(<Vec<u8> as fpatch::dirs::FileNameString>::name_string(&bare), b"plain".to_vec());
}

#[test]
fn entries_are_unique() {
    // Two records whose targets share an inode: the second gets a
    // server-assigned one; a duplicated target is dropped.
    let files = vec![patch(b"/tmp/a"), patch(b"/tmp/b"), patch(b"/tmp/a")];
    let stats = vec![stat_with(9, 1), stat_with(9, 1), stat_with(9, 1)];
    let fs = MirrorFileSystem::new(files, stats, 0, 0);
    assert_eq!(fs.entries.len(), 4);
    for i in 2..fs.entries.len() {
        assert_ne!(fs.entries[i].attr.ino, 1);
        for j in (i + 1)..fs.entries.len() {
            assert_ne!(fs.entries[i].name, fs.entries[j].name);
            assert_ne!(fs.entries[i].attr.ino, fs.entries[j].attr.ino);
        }
    }
}

#[test]
fn distinct_real_inodes_are_kept() {
    let files = vec![patch(b"/tmp/a"), patch(b"/tmp/b")];
    let stats = vec![stat_with(5, 1), stat_with(6, 1)];
    let fs = MirrorFileSystem::new(files, stats, 0, 0);
    assert_eq!(fs.entries[2].attr.ino, 5);
    assert_eq!(fs.entries[3].attr.ino, 6);
}

#[test]
fn entries_keep_input_order() {
    // A duplicated target in the middle is dropped; the rest stand in
    // input order after the two pseudo-entries.
    let files = vec![patch(b"/tmp/a"), patch(b"/tmp/b"), patch(b"/tmp/a"), patch(b"/tmp/c")];
    let stats = vec![stat_with(5, 1), stat_with(6, 1), stat_with(7, 1), stat_with(8, 1)];
    let fs = MirrorFileSystem::new(files, stats, 0, 0);
    assert_eq!(fs.entries.len(), 5);
    assert_eq!(fs.entries[2].name, entry_name(&b"/tmp/a".to_vec()));
    assert_eq!(fs.entries[3].name, entry_name(&b"/tmp/b".to_vec()));
    assert_eq!(fs.entries[4].name, entry_name(&b"/tmp/c".to_vec()));
}

#[test]
fn read_refuses_unbacked_entry() {
    // The pseudo-entries exist but carry no record: a read of their inode
    // is invalid, and a missing inode is absent.
    let files = vec![patch(b"/tmp/a")];
    let stats = vec![stat_with(5, 1)];
    let fs = MirrorFileSystem::new(files, stats, 0, 0);
    assert!(matches!(fs.read(1, 0, 16), Err(FsError::Invalid)));
    assert!(matches!(fs.read(9, 0, 16), Err(FsError::NotFound)));
}

#[test]
fn root_inode_never_reused() {
    // A target whose real inode is 1 gets a fresh one.
    let files = vec![patch(b"/tmp/a")];
    let stats = vec![stat_with(1, 1)];
    let fs = MirrorFileSystem::new(files, stats, 0, 0);
    assert_eq!(fs.entries.len(), 3);
    assert_ne!(fs.entries[2].attr.ino, 1);
}

#[test]
fn lookup_finds_entry_by_name() {
    let files = vec![patch(b"/tmp/a")];
    let stats = vec![stat_with(5, 1)];
    let fs = MirrorFileSystem::new(files, stats, 0, 0);
    let name = entry_name(&b"/tmp/a".to_vec());
    let attr = fs.lookup(1, &name).unwrap();
    assert_eq!(attr.ino, 5);
    assert!(matches!(fs.lookup(1, &b"missing".to_vec()), Err(FsError::NotFound)));
    assert!(matches!(fs.lookup(7, &name), Err(FsError::NotFound)));
}

#[test]
fn getattr_by_inode() {
    let files = vec![patch(b"/tmp/a")];
    let stats = vec![stat_with(5, 1)];
    let fs = MirrorFileSystem::new(files, stats, 0, 0);
    assert_eq!(fs.getattr(1).unwrap().ino, 1);
    assert_eq!(fs.getattr(5).unwrap().ino, 5);
    assert!(matches!(fs.getattr(6), Err(FsError::NotFound)));
}

#[test]
fn open_needs_backing_record() {
    let files = vec![patch(b"/tmp/a")];
    let stats = vec![stat_with(5, 1)];
    let fs = MirrorFileSystem::new(files, stats, 0, 0);
    assert_eq!(fs.open(5).unwrap(), 5);
    // The root's pseudo-entries have no backing record.
    assert!(matches!(fs.open(1), Err(FsError::Invalid)));
    assert!(matches!(fs.open(6), Err(FsError::Invalid)));
}

#[test]
fn readdir_numbers_from_offset() {
    let files = vec![patch(b"/tmp/a"), patch(b"/tmp/b")];
    let stats = vec![stat_with(5, 1), stat_with(6, 1)];
    let fs = MirrorFileSystem::new(files, stats, 0, 0);
    let all = fs.readdir(1, 0).unwrap();
    assert_eq!(all.len(), 4);
    assert_eq!(all[0].0, 1);
    assert_eq!(all[0].1, 1);
    assert_eq!(all[0].3, b".".to_vec());
    assert_eq!(all[1].3, b"..".to_vec());
    assert_eq!(all[3].1, 4);
    let rest = fs.readdir(1, 3).unwrap();
    assert_eq!(rest.len(), 1);
    assert_eq!(rest[0].1, 4);
    assert_eq!(rest[0].3, entry_name(&b"/tmp/b".to_vec()));
    assert!(matches!(fs.readdir(2, 0), Err(FsError::NotFound)));
    assert_eq!(fs.readdir(1, 10).unwrap().len(), 0);
}

#[test]
fn errno_values() {
    assert_eq!(FsError::NotFound.errno(), 2);
    assert_eq!(FsError::Invalid.errno(), 22);
    assert_eq!(FsError::Io.errno(), 5);
}

#[test]
fn preflight_refuses_insecure_binary() {
    // Not SUID: refused before any mount is attempted.
    assert!(matches!(
        fpatch::check_permissions(0o100755, 0),
        Err(fpatch::PreflightError::NotSetuid)
    ));
    // Group- or other-writable: refused.
    assert!(matches!(
        fpatch::check_permissions(0o104775, 0),
        Err(fpatch::PreflightError::LooseMode)
    ));
    // Not a regular file: refused.
    assert!(matches!(
        fpatch::check_permissions(0o044755, 0),
        Err(fpatch::PreflightError::NotRegular)
    ));
    // Not root-owned: refused.
    assert!(matches!(
        fpatch::check_permissions(0o104755, 1000),
        Err(fpatch::PreflightError::NotRootOwned)
    ));
    // A root-owned SUID regular file passes.
    assert!(fpatch::check_permissions(0o104755, 0).is_ok());
    // A SUID socket or symlink is not a regular file, even though their
    // type values contain the regular-file bit.
    assert!(matches!(
        fpatch::check_permissions(0o144755, 0),
        Err(fpatch::PreflightError::NotRegular)
    ));
    assert!(matches!(
        fpatch::check_permissions(0o124755, 0),
        Err(fpatch::PreflightError::NotRegular)
    ));
}

#[test]
fn preflight_messages() {
    assert_eq!(fpatch::PreflightError::NotSetuid.message(), "fpatch must be SUID file to run");
    assert_eq!(fpatch::PreflightError::NotRootOwned.message(), "file owner must be root");
}
