use fpatch::configs::{from_sections, PatchType, PatchedFile};
use fpatch::fuse::{generate_attr, read_window, FileKind, FileRegion, StatInfo};

fn stat_with(ino: u64, size: u64) -> StatInfo {
    StatInfo {
        ino,
        size,
        blocks: 8,
        mode: 0o100644,
        nlink: 1,
        uid: 1000,
        gid: 1000,
        rdev: 0,
        blksize: 4096,
        atime_sec: 1,
        atime_nsec: 2,
        mtime_sec: 3,
        mtime_nsec: 4,
        ctime_sec: 5,
        ctime_nsec: 6,
    }
}

#[test]
fn replace_full_read() {
    // Target holds "HELLO", patch replaces with "BYE": readers see "BYE".
    let s = b"HELLO".to_vec();
    let b = b"BYE".to_vec();
    let out = read_window(PatchType::Replace, &s, &b, 0, 4096);
    assert_eq!(out, b"BYE".to_vec());
    assert_eq!(out.len(), 3);
}

#[test]
fn prepend_full_read() {
    // Target holds "world", blob "hello " is prepended: "hello world".
    let s = b"world".to_vec();
    let b = b"hello ".to_vec();
    let out = read_window(PatchType::Prepend, &s, &b, 0, 4096);
    assert_eq!(out, b"hello world".to_vec());
    assert_eq!(out.len(), 11);
}

#[test]
fn prepend_windowed_read() {
    // pread(offset=3, size=5) of "hello world" yields "lo wo".
    let s = b"world".to_vec();
    let b = b"hello ".to_vec();
    let out = read_window(PatchType::Prepend, &s, &b, 3, 5);
    assert_eq!(out, b"lo wo".to_vec());
}

#[test]
fn append_full_read() {
    let s = b"abc".to_vec();
    let b = b"XYZ".to_vec();
    let out = read_window(PatchType::Append, &s, &b, 0, 4096);
    assert_eq!(out, b"abcXYZ".to_vec());
}

#[test]
fn append_windowed_read() {
    // pread(offset=2, size=3) of "abcXYZ" yields "cXY".
    let s = b"abc".to_vec();
    let b = b"XYZ".to_vec();
    let out = read_window(PatchType::Append, &s, &b, 2, 3);
    assert_eq!(out, b"cXY".to_vec());
}

#[test]
fn replace_windowed_read() {
    let s = b"HELLO".to_vec();
    let b = b"BYE".to_vec();
    let out = read_window(PatchType::Replace, &s, &b, 1, 1);
    assert_eq!(out, b"Y".to_vec());
}

#[test]
fn read_at_end_is_empty() {
    let s = b"abc".to_vec();
    let b = b"XYZ".to_vec();
    let out = read_window(PatchType::Append, &s, &b, 6, 10);
    assert_eq!(out, Vec::<u8>::new());
}

#[test]
fn read_clamps_at_virtual_size() {
    let s = b"ab".to_vec();
    let b = b"cd".to_vec();
    let out = read_window(PatchType::Append, &s, &b, 3, 100);
    assert_eq!(out, b"d".to_vec());
}

#[test]
fn virtual_size_law() {
    // Replace reports |B|; Prepend and Append report |S| + |B|.
    let replace = PatchedFile { patch_type: PatchType::Replace, path: b"/tmp/a".to_vec(), content: b"BYE".to_vec() };
    let prepend = PatchedFile { patch_type: PatchType::Prepend, path: b"/tmp/a".to_vec(), content: b"hello ".to_vec() };
    let append = PatchedFile { patch_type: PatchType::Append, path: b"/tmp/a".to_vec(), content: b"XYZ".to_vec() };
    let st = stat_with(7, 5);
    assert_eq!(generate_attr(&replace, &st).size, 3);
    assert_eq!(generate_attr(&prepend, &st).size, 11);
    assert_eq!(generate_attr(&append, &st).size, 8);
}

#[test]
fn attr_carries_stat_fields() {
    let f = PatchedFile { patch_type: PatchType::Append, path: b"/tmp/a".to_vec(), content: b"x".to_vec() };
    let st = stat_with(42, 10);
    let a = generate_attr(&f, &st);
    assert_eq!(a.ino, 42);
    assert!(matches!(a.kind, FileKind::RegularFile));
    assert_eq!(a.perm, 0o644);
    assert_eq!(a.uid, 1000);
    assert_eq!(a.gid, 1000);
    assert_eq!(a.mtime_sec, 3);
}

#[test]
fn region_sizes() {
    let r = FileRegion { s_begin: 2, s_end: 5, d_begin: 1, d_end: 1 };
    assert_eq!(r.s_size(), 3);
    assert_eq!(r.d_size(), 0);
}

#[test]
fn sections_keep_order() {
    let p = vec![(b"/p1".to_vec(), b"a".to_vec())];
    let a = vec![(b"/a1".to_vec(), b"b".to_vec()), (b"/a2".to_vec(), b"c".to_vec())];
    let r = vec![(b"/r1".to_vec(), b"d".to_vec())];
    let all = from_sections(p, a, r);
    assert_eq!(all.len(), 4);
    assert!(matches!(all[0].patch_type, PatchType::Prepend));
    assert_eq!(all[0].path, b"/p1".to_vec());
    assert!(matches!(all[1].patch_type, PatchType::Append));
    assert_eq!(all[1].path, b"/a1".to_vec());
    assert_eq!(all[2].path, b"/a2".to_vec());
    assert!(matches!(all[3].patch_type, PatchType::Replace));
    assert_eq!(all[3].content, b"d".to_vec());
}
