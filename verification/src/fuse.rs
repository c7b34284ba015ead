//! The synthetic filesystem: virtual-content reads, per-entry attributes,
//! and the directory of synthetic entries.
//!
//! The byte window served for a read is stitched from two sources: the real
//! file on disk (`S`) and the patch blob (`B`).  A [`FileRegion`] names the
//! sub-interval of each source that a read `[begin, end)` touches; the
//! stitched result equals the same window of the virtual content.

use vstd::math::max;
use vstd::math::min;
use vstd::prelude::*;

use rustix::fs::Mode;
use rustix::fs::OFlags;

use crate::bytes::bytes_eq;
use crate::bytes::copy_range;
use crate::configs::virtual_bytes;
use crate::configs::virtual_size;
use crate::configs::PatchType;
use crate::configs::PatchedFile;
use crate::dirs::after_last;
use crate::dirs::FileNameString;
use crate::hash::hex_of;
use crate::hash::lemma_hex_has_no_colon;
use crate::hash::md5_of;

verus! {

/// The inode number of the synthetic root directory.
pub const ROOT_INO: u64 = 1;

/// Why a filesystem operation was refused, mapped onto the Unix errno the
/// FUSE reply carries.
#[derive(Debug, Clone, Copy, PartialEq, Eq, Structural)]
pub enum FsError {
    /// No such entry (ENOENT).
    NotFound,
    /// The entry cannot be opened or read (EINVAL).
    Invalid,
    /// The backing file could not be statted or read (EIO).
    Io,
}

impl FsError {
    /// The Unix errno value for this error.
    pub fn errno(&self) -> (r: i32)
        ensures
            self is NotFound ==> r == 2,
            self is Invalid ==> r == 22,
            self is Io ==> r == 5,
    {
        match self {
            FsError::NotFound => 2,
            FsError::Invalid => 22,
            FsError::Io => 5,
        }
    }
}

/// Whether a stat of the mount point seen through another process's root
/// shows the synthetic filesystem: its root carries the marker inode.  The
/// publisher retries until this holds before capturing the mount tree.
pub fn ns_ready(ino: u64) -> (r: bool)
    ensures
        r <==> ino == ROOT_INO,
{
    ino == ROOT_INO
}

/// A stat snapshot of a real file, as plain values.  The surrounding program
/// or the stat wrapper fills it from the kernel's `struct stat`.
#[derive(Debug, Clone, Copy, PartialEq, Eq, Structural)]
pub struct StatInfo {
    pub ino: u64,
    pub size: u64,
    pub blocks: u64,
    pub mode: u32,
    pub nlink: u64,
    pub uid: u32,
    pub gid: u32,
    pub rdev: u64,
    pub blksize: u64,
    pub atime_sec: i64,
    pub atime_nsec: u32,
    pub mtime_sec: i64,
    pub mtime_nsec: u32,
    pub ctime_sec: i64,
    pub ctime_nsec: u32,
}

/// What a synthetic file appears as.
#[derive(Debug, Clone, Copy, PartialEq, Eq, Structural)]
pub enum FileKind {
    Directory,
    RegularFile,
}

/// The attribute record served for an inode, as plain values; times are
/// seconds and nanoseconds since the epoch.
#[derive(Debug, Clone, Copy, PartialEq, Eq, Structural)]
pub struct FileAttr {
    pub ino: u64,
    pub size: u64,
    pub blocks: u64,
    pub atime_sec: i64,
    pub atime_nsec: u32,
    pub mtime_sec: i64,
    pub mtime_nsec: u32,
    pub ctime_sec: i64,
    pub ctime_nsec: u32,
    pub kind: FileKind,
    pub perm: u16,
    pub nlink: u32,
    pub uid: u32,
    pub gid: u32,
    pub rdev: u32,
    pub blksize: u32,
    pub flags: u32,
}

/// The attributes of a synthetic entry: the target's stat snapshot with the
/// size adjusted to the virtual size, the kind forced to a regular file, and
/// the permission bits masked to `0o777`.
pub open spec fn attr_of(t: PatchType, content_len: nat, st: StatInfo) -> FileAttr {
    FileAttr {
        ino: st.ino,
        size: virtual_size(t, st.size as nat, content_len) as u64,
        blocks: st.blocks,
        atime_sec: st.atime_sec,
        atime_nsec: st.atime_nsec,
        mtime_sec: st.mtime_sec,
        mtime_nsec: st.mtime_nsec,
        ctime_sec: st.ctime_sec,
        ctime_nsec: st.ctime_nsec,
        kind: FileKind::RegularFile,
        perm: (st.mode & 0o777) as u16,
        nlink: st.nlink as u32,
        uid: st.uid,
        gid: st.gid,
        rdev: st.rdev as u32,
        blksize: st.blksize as u32,
        flags: 0,
    }
}

/// Builds the attribute record of one synthetic entry from the patch record
/// and a stat snapshot of its target.  The reported size obeys the
/// virtual-size law: `|B|` for Replace, `|S| + |B|` for Prepend and Append.
pub fn generate_attr(file: &PatchedFile, st: &StatInfo) -> (r: FileAttr)
    requires
        st.size + file.content@.len() <= u64::MAX,
    ensures
        r == attr_of(file.patch_type, file.content@.len(), *st),
        r.size == virtual_size(file.patch_type, st.size as nat, file.content@.len()),
{
    let size: u64 = match file.patch_type {
        PatchType::Replace => file.content.len() as u64,
        PatchType::Prepend => st.size + file.content.len() as u64,
        PatchType::Append => st.size + file.content.len() as u64,
    };
    FileAttr {
        ino: st.ino,
        size,
        blocks: st.blocks,
        atime_sec: st.atime_sec,
        atime_nsec: st.atime_nsec,
        mtime_sec: st.mtime_sec,
        mtime_nsec: st.mtime_nsec,
        ctime_sec: st.ctime_sec,
        ctime_nsec: st.ctime_nsec,
        kind: FileKind::RegularFile,
        perm: (st.mode & 0o777) as u16,
        nlink: #[verifier::truncate] (st.nlink as u32),
        uid: st.uid,
        gid: st.gid,
        rdev: #[verifier::truncate] (st.rdev as u32),
        blksize: #[verifier::truncate] (st.blksize as u32),
        flags: 0,
    }
}

/// The synthetic root directory's attributes: inode 1, mode `0755`, owned by
/// the serving process.
pub open spec fn root_attr_of(uid: u32, gid: u32) -> FileAttr {
    FileAttr {
        ino: ROOT_INO,
        size: 0,
        blocks: 0,
        atime_sec: 0,
        atime_nsec: 0,
        mtime_sec: 0,
        mtime_nsec: 0,
        ctime_sec: 0,
        ctime_nsec: 0,
        kind: FileKind::Directory,
        perm: 0o755,
        nlink: 0,
        uid,
        gid,
        rdev: 0,
        blksize: 0,
        flags: 0,
    }
}

/// Builds the root directory's attribute record.
pub fn root_attr(uid: u32, gid: u32) -> (r: FileAttr)
    ensures
        r == root_attr_of(uid, gid),
{
    FileAttr {
        ino: ROOT_INO,
        size: 0,
        blocks: 0,
        atime_sec: 0,
        atime_nsec: 0,
        mtime_sec: 0,
        mtime_nsec: 0,
        ctime_sec: 0,
        ctime_nsec: 0,
        kind: FileKind::Directory,
        perm: 0o755,
        nlink: 0,
        uid,
        gid,
        rdev: 0,
        blksize: 0,
        flags: 0,
    }
}

/// The prefix of `p` before the first occurrence of `c`; all of `p` when `c`
/// does not occur.
pub open spec fn before_first(p: Seq<u8>, c: u8) -> Seq<u8>
    decreases p.len(),
{
    if p.len() == 0 {
        p
    } else if p[0] == c {
        Seq::<u8>::empty()
    } else {
        seq![p[0]] + before_first(p.drop_first(), c)
    }
}

/// Extracts the prefix of `name` before the first occurrence of `c`.
pub fn before_first_byte(name: &Vec<u8>, c: u8) -> (r: Vec<u8>)
    ensures
        r@ == before_first(name@, c),
{
    let n = name.len();
    let mut i: usize = 0;
    while i < n
        invariant
            i <= n,
            n == name.len(),
            forall|k: int| 0 <= k < i ==> name@[k] != c,
        decreases n - i,
    {
        if name[i] == c {
            let r = copy_range(name, 0, i);
            proof {
                lemma_before_first_hit(name@, c, i as int);
            }
            return r;
        }
        i = i + 1;
    }
    let r = copy_range(name, 0, n);
    proof {
        lemma_before_first_absent(name@, c);
        assert(name@.subrange(0, n as int) =~= name@);
    }
    r
}

/// The prefix before a byte is never longer than the sequence.
pub proof fn lemma_before_first_len(p: Seq<u8>, c: u8)
    ensures
        before_first(p, c).len() <= p.len(),
    decreases p.len(),
{
    if p.len() > 0 && p[0] != c {
        lemma_before_first_len(p.drop_first(), c);
    }
}

/// When the first occurrence of `c` in `p` is at `j`, the prefix before it
/// is `p[.. j]`.
pub proof fn lemma_before_first_hit(p: Seq<u8>, c: u8, j: int)
    requires
        0 <= j < p.len(),
        p[j] == c,
        forall|k: int| 0 <= k < j ==> p[k] != c,
    ensures
        before_first(p, c) == p.subrange(0, j),
    decreases p.len(),
{
    if j == 0 {
        assert(before_first(p, c) =~= p.subrange(0, 0));
    } else {
        lemma_before_first_hit(p.drop_first(), c, j - 1);
        assert(p.drop_first().subrange(0, j - 1) =~= p.subrange(1, j));
        assert(before_first(p, c) =~= p.subrange(0, j));
    }
}

/// When `c` does not occur in `p`, the prefix before it is all of `p`.
pub proof fn lemma_before_first_absent(p: Seq<u8>, c: u8)
    requires
        forall|k: int| 0 <= k < p.len() ==> p[k] != c,
    ensures
        before_first(p, c) == p,
    decreases p.len(),
{
    if p.len() > 0 {
        lemma_before_first_absent(p.drop_first(), c);
        assert(before_first(p, c) =~= p);
    }
}

/// A synthetic entry's name: the lowercase-hex digest of the target path,
/// a `:`, then the target's base name.
pub open spec fn entry_name_spec(path: Seq<u8>) -> Seq<u8> {
    hex_of(md5_of(path)) + seq![58u8] + after_last(path, 47)
}

/// Builds a synthetic entry's name from its target path.
pub fn entry_name(path: &Vec<u8>) -> (r: Vec<u8>)
    ensures
        r@ == entry_name_spec(path@),
{
    let mut r = <Vec<u8> as crate::hash::Hash>::hash(path);
    r.push(58);
    let mut base = path.name_string();
    r.append(&mut base);
    proof {
        assert(r@ =~= entry_name_spec(path@));
    }
    r
}

/// Round trip, name to path identity: splitting a synthetic entry's name at
/// the first `:` yields exactly the hex digest of the path it was built
/// from.
pub proof fn lemma_name_round_trip(path: Seq<u8>)
    ensures
        before_first(entry_name_spec(path), 58) == hex_of(md5_of(path)),
{
    let h = hex_of(md5_of(path));
    lemma_hex_has_no_colon(md5_of(path));
    lemma_before_first_prefix(h, entry_name_spec(path), 58);
}

/// The prefix before the first `c` of any sequence that starts with a
/// `c`-free prefix `h` followed by `c` is `h` itself.
pub proof fn lemma_before_first_prefix(h: Seq<u8>, p: Seq<u8>, c: u8)
    requires
        forall|k: int| 0 <= k < h.len() ==> h[k] != c,
        p.len() > h.len(),
        forall|k: int| 0 <= k < h.len() ==> p[k] == h[k],
        p[h.len() as int] == c,
    ensures
        before_first(p, c) == h,
{
    lemma_before_first_hit(p, c, h.len() as int);
    assert(p.subrange(0, h.len() as int) =~= h);
}

/// One entry of the synthetic directory: its name, the attributes served for
/// it, and (for real entries) the backing patch record.
#[derive(Debug, Clone)]
pub struct FuseEntry {
    pub name: Vec<u8>,
    pub attr: FileAttr,
    pub src: Option<PatchedFile>,
}

impl FuseEntry {
    /// Packs the three fields.
    fn new(name: Vec<u8>, attr: FileAttr, file: Option<PatchedFile>) -> (r: Self)
        ensures
            r.name == name,
            r.attr == attr,
            r.src == file,
    {
        Self { name, attr, src: file }
    }

    /// The two pseudo-entries `.` and `..`, both pointing at the root inode.
    fn specials(uid: u32, gid: u32) -> (r: Vec<Self>)
        ensures
            r.len() == 2,
            r[0].name@ == seq![46u8],
            r[1].name@ == seq![46u8, 46u8],
            r[0].attr == root_attr_of(uid, gid),
            r[1].attr == root_attr_of(uid, gid),
            r[0].src is None,
            r[1].src is None,
    {
        let attr = root_attr(uid, gid);
        let mut dot: Vec<u8> = Vec::new();
        dot.push(46);
        let mut dotdot: Vec<u8> = Vec::new();
        dotdot.push(46);
        dotdot.push(46);
        let mut r: Vec<Self> = Vec::new();
        r.push(Self::new(dot, attr, None));
        r.push(Self::new(dotdot, attr, None));
        proof {
            assert(r[0].name@ =~= seq![46u8]);
            assert(r[1].name@ =~= seq![46u8, 46u8]);
        }
        r
    }

    /// Builds the entry for one patch record from a stat snapshot of its
    /// target: named by the path digest and base name, with adjusted
    /// attributes, backed by the record.
    pub fn from_patch(file: PatchedFile, st: &StatInfo) -> (r: Self)
        requires
            st.size + file.content@.len() <= u64::MAX,
        ensures
            r.name@ == entry_name_spec(file.path@),
            r.attr == attr_of(file.patch_type, file.content@.len(), *st),
            r.src == Some(file),
    {
        let name = entry_name(&file.path);
        let attr = generate_attr(&file, st);
        Self::new(name, attr, Some(file))
    }
}

/// Sub-intervals of the two byte sources touched by one read: `[s_begin,
/// s_end)` of the real file, `[d_begin, d_end)` of the blob.
#[derive(Debug, Clone, Copy, PartialEq, Eq, Structural)]
pub struct FileRegion {
    pub s_begin: usize,
    pub s_end: usize,
    pub d_begin: usize,
    pub d_end: usize,
}

impl FileRegion {
    /// Length of the real-file sub-interval.
    pub fn s_size(&self) -> (r: usize)
        requires
            self.s_begin <= self.s_end,
        ensures
            r == self.s_end - self.s_begin,
    {
        self.s_end - self.s_begin
    }

    /// Length of the blob sub-interval.
    pub fn d_size(&self) -> (r: usize)
        requires
            self.d_begin <= self.d_end,
        ensures
            r == self.d_end - self.d_begin,
    {
        self.d_end - self.d_begin
    }
}

/// Region arithmetic for a read `[begin, end)` of the virtual content, given
/// the real file's size and the blob's size.  The boundary sits at `|B|` for
/// Prepend and at `|S|` for Append; clamping is by `min`/`max`, never by
/// underflowing subtraction.  For Replace the real file is not touched.
pub fn compute_region(t: PatchType, begin: usize, end: usize, s_size: usize, d_size: usize) -> (r:
    FileRegion)
    requires
        begin <= end,
        end <= virtual_size(t, s_size as nat, d_size as nat),
        s_size + d_size <= usize::MAX,
    ensures
        r.s_begin <= r.s_end <= s_size,
        r.d_begin <= r.d_end <= d_size,
        match t {
            PatchType::Prepend => r.d_begin == min(begin as int, d_size as int) && r.d_end == min(
                end as int,
                d_size as int,
            ) && r.s_begin == max(begin as int, d_size as int) - d_size && r.s_end == max(
                end as int,
                d_size as int,
            ) - d_size,
            PatchType::Append => r.s_begin == min(begin as int, s_size as int) && r.s_end == min(
                end as int,
                s_size as int,
            ) && r.d_begin == max(begin as int, s_size as int) - s_size && r.d_end == max(
                end as int,
                s_size as int,
            ) - s_size,
            PatchType::Replace => r.s_begin == 0 && r.s_end == 0 && r.d_begin == begin && r.d_end
                == end,
        },
{
    match t {
        PatchType::Prepend => FileRegion {
            s_begin: if begin > d_size {
                begin - d_size
            } else {
                0
            },
            s_end: if end > d_size {
                end - d_size
            } else {
                0
            },
            d_begin: if begin < d_size {
                begin
            } else {
                d_size
            },
            d_end: if end < d_size {
                end
            } else {
                d_size
            },
        },
        PatchType::Append => FileRegion {
            s_begin: if begin < s_size {
                begin
            } else {
                s_size
            },
            s_end: if end < s_size {
                end
            } else {
                s_size
            },
            d_begin: if begin > s_size {
                begin - s_size
            } else {
                0
            },
            d_end: if end > s_size {
                end - s_size
            } else {
                0
            },
        },
        PatchType::Replace => FileRegion { s_begin: 0, s_end: 0, d_begin: begin, d_end: end },
    }
}

/// Read identity, spec side: the window `[begin, end)` of the virtual content
/// is exactly the blob sub-interval and the real-file sub-interval named by
/// the region arithmetic, concatenated in mode order.
pub proof fn lemma_region_covers(t: PatchType, s: Seq<u8>, b: Seq<u8>, begin: int, end: int)
    requires
        0 <= begin <= end <= virtual_bytes(t, s, b).len(),
    ensures
        match t {
            PatchType::Prepend => virtual_bytes(t, s, b).subrange(begin, end) == b.subrange(
                min(begin, b.len() as int),
                min(end, b.len() as int),
            ) + s.subrange(
                max(begin, b.len() as int) - b.len(),
                max(end, b.len() as int) - b.len(),
            ),
            PatchType::Append => virtual_bytes(t, s, b).subrange(begin, end) == s.subrange(
                min(begin, s.len() as int),
                min(end, s.len() as int),
            ) + b.subrange(
                max(begin, s.len() as int) - s.len(),
                max(end, s.len() as int) - s.len(),
            ),
            PatchType::Replace => virtual_bytes(t, s, b).subrange(begin, end) == b.subrange(
                begin,
                end,
            ),
        },
{
    match t {
        PatchType::Prepend => {
            assert(virtual_bytes(t, s, b).subrange(begin, end) =~= b.subrange(
                min(begin, b.len() as int),
                min(end, b.len() as int),
            ) + s.subrange(
                max(begin, b.len() as int) - b.len(),
                max(end, b.len() as int) - b.len(),
            ));
        },
        PatchType::Append => {
            assert(virtual_bytes(t, s, b).subrange(begin, end) =~= s.subrange(
                min(begin, s.len() as int),
                min(end, s.len() as int),
            ) + b.subrange(
                max(begin, s.len() as int) - s.len(),
                max(end, s.len() as int) - s.len(),
            ));
        },
        PatchType::Replace => {
            assert(virtual_bytes(t, s, b).subrange(begin, end) =~= b.subrange(begin, end));
        },
    }
}

/// An owned file descriptor, as rustix hands it out; opaque to the library.
#[verifier::external_type_specification]
#[verifier::external_body]
pub struct ExOwnedFd(rustix::fd::OwnedFd);

/// Relies on rustix::fs::stat: queries the target's metadata and converts
/// the kernel's `struct stat` into a plain snapshot; any failure is I/O.
#[verifier::external_body]
fn stat_file(path: &Vec<u8>) -> (r: Result<StatInfo, FsError>)
    ensures
        r matches Err(e) ==> e == FsError::Io,
{
    match rustix::fs::stat(path) {
        Ok(st) => Ok(
            StatInfo {
                ino: st.st_ino, size: st.st_size as u64, blocks: st.st_blocks as u64,
                mode: st.st_mode, nlink: st.st_nlink, uid: st.st_uid, gid: st.st_gid,
                rdev: st.st_rdev, blksize: st.st_blksize as u64,
                atime_sec: st.st_atime, atime_nsec: st.st_atime_nsec as u32,
                mtime_sec: st.st_mtime, mtime_nsec: st.st_mtime_nsec as u32,
                ctime_sec: st.st_ctime, ctime_nsec: st.st_ctime_nsec as u32,
            },
        ),
        Err(_) => Err(FsError::Io),
    }
}

/// Relies on rustix::fs::open with `O_RDONLY`: opens the target for reading;
/// any failure is I/O.
#[verifier::external_body]
fn open_read(path: &Vec<u8>) -> (r: Result<rustix::fd::OwnedFd, FsError>)
    ensures
        r matches Err(e) ==> e == FsError::Io,
{
    match rustix::fs::open(path, OFlags::RDONLY, Mode::empty()) {
        Ok(fd) => Ok(fd),
        Err(_) => Err(FsError::Io),
    }
}

/// Relies on rustix::io::pread: positional read that returns at most `want`
/// bytes from the given offset; zero bytes at end of file.
#[verifier::external_body]
fn pread_some(fd: &rustix::fd::OwnedFd, offset: u64, want: usize) -> (r: Result<Vec<u8>, FsError>)
    ensures
        r matches Ok(v) ==> v@.len() <= want,
        r matches Err(e) ==> e == FsError::Io,
{
    let mut buf = vec![0u8; want];
    match rustix::io::pread(fd, &mut *buf, offset) {
        Ok(n) => {
            buf.truncate(n);
            Ok(buf)
        },
        Err(_) => Err(FsError::Io),
    }
}

/// Positional read of exactly `want` bytes at `offset`; end of file before
/// the window is filled is an I/O error.
fn read_exact_at(fd: &rustix::fd::OwnedFd, offset: u64, want: usize) -> (r: Result<Vec<u8>, FsError>)
    requires
        offset + want <= u64::MAX,
    ensures
        r matches Ok(v) ==> v@.len() == want,
        r matches Err(e) ==> e == FsError::Io,
{
    let mut acc: Vec<u8> = Vec::new();
    while acc.len() < want
        invariant
            acc.len() <= want,
            offset + want <= u64::MAX,
        decreases want - acc.len(),
    {
        let got = acc.len();
        match pread_some(fd, offset + got as u64, want - got) {
            Ok(chunk) => {
                if chunk.len() == 0 {
                    return Err(FsError::Io);
                }
                let mut chunk = chunk;
                acc.append(&mut chunk);
            },
            Err(e) => {
                return Err(e);
            },
        }
    }
    Ok(acc)
}

/// Converts a file size or offset to an in-memory index; sizes beyond the
/// address space are an I/O error.
fn u64_to_usize(x: u64) -> (r: Result<usize, FsError>)
    ensures
        r matches Ok(v) ==> v == x,
        r is Err ==> x > usize::MAX,
        r matches Err(e) ==> e == FsError::Io,
{
    if x <= usize::MAX as u64 {
        Ok(x as usize)
    } else {
        Err(FsError::Io)
    }
}

/// The window a read request is owed: `V[min(begin, m) .. min(begin + size,
/// m)]` where `V` is the virtual content and `m` clamps the window both to
/// the entry's reported size and to `|V|` as it now is.
pub open spec fn read_result_spec(
    t: PatchType,
    s: Seq<u8>,
    b: Seq<u8>,
    begin: u64,
    size: u32,
    max_index: u64,
) -> Seq<u8> {
    let v = virtual_bytes(t, s, b);
    let m = min(max_index as int, v.len() as int);
    v.subrange(min(begin as int, m), min(begin as int + size as int, m))
}

/// Packages the read-identity argument for one served read: when the clamped
/// window `[begin_c, end)` and the region obey the mode's arithmetic, the
/// stitched slices are exactly the owed window of the virtual content.
proof fn lemma_stitched_window(
    t: PatchType,
    sdisk: Seq<u8>,
    b: Seq<u8>,
    begin: u64,
    size: u32,
    max_index: u64,
    m: int,
    begin_c: int,
    end: int,
    region: FileRegion,
    spart: Seq<u8>,
    dpart: Seq<u8>,
    out: Seq<u8>,
)
    requires
        m == min(max_index as int, virtual_size(t, sdisk.len(), b.len()) as int),
        begin_c == min(begin as int, m),
        end == min(begin as int + size as int, m),
        match t {
            PatchType::Prepend => region.d_begin == min(begin_c, b.len() as int) && region.d_end
                == min(end, b.len() as int) && region.s_begin == max(begin_c, b.len() as int)
                - b.len() && region.s_end == max(end, b.len() as int) - b.len(),
            PatchType::Append => region.s_begin == min(begin_c, sdisk.len() as int) && region.s_end
                == min(end, sdisk.len() as int) && region.d_begin == max(begin_c, sdisk.len() as int)
                - sdisk.len() && region.d_end == max(end, sdisk.len() as int) - sdisk.len(),
            PatchType::Replace => region.s_begin == 0 && region.s_end == 0 && region.d_begin
                == begin_c && region.d_end == end,
        },
        spart == sdisk.subrange(region.s_begin as int, region.s_end as int),
        dpart == b.subrange(region.d_begin as int, region.d_end as int),
        out == match t {
            PatchType::Prepend => dpart + spart,
            PatchType::Append => spart + dpart,
            PatchType::Replace => dpart,
        },
    ensures
        out == read_result_spec(t, sdisk, b, begin, size, max_index),
{
    crate::configs::lemma_virtual_size_is_len(t, sdisk, b);
    lemma_region_covers(t, sdisk, b, begin_c, end);
}

/// Serves one read of a synthetic file: stats the target, computes the
/// region of each byte source, reads the real-file window positionally, and
/// stitches the result in mode order.  Whatever bytes the target holds on
/// disk at this moment, the result is exactly the owed window of the virtual
/// content built from them; empty sub-windows issue no read.
#[verifier::spinoff_prover]
#[verifier::rlimit(60)]
pub fn do_read(file: &PatchedFile, begin: u64, size: u32, max_index: u64) -> (r: Result<
    Vec<u8>,
    FsError,
>)
    ensures
        r matches Ok(v) ==> exists|sdisk: Seq<u8>|
            v@ == read_result_spec(file.patch_type, sdisk, file.content@, begin, size, max_index),
        r matches Err(e) ==> e == FsError::Io,
{
    let t = file.patch_type;
    let st = match stat_file(&file.path) {
        Ok(st) => st,
        Err(e) => {
            return Err(e);
        },
    };
    let s_size = match u64_to_usize(st.size) {
        Ok(v) => v,
        Err(e) => {
            return Err(e);
        },
    };
    let b_size = file.content.len();
    if s_size > usize::MAX - b_size {
        return Err(FsError::Io);
    }
    let vsize: usize = match t {
        PatchType::Replace => b_size,
        PatchType::Prepend => s_size + b_size,
        PatchType::Append => s_size + b_size,
    };
    let m: usize = if max_index < vsize as u64 {
        max_index as usize
    } else {
        vsize
    };
    let begin_c: usize = if begin < m as u64 {
        begin as usize
    } else {
        m
    };
    let end: usize = if (size as u64) > (m - begin_c) as u64 {
        m
    } else {
        begin_c + size as usize
    };
    let region = compute_region(t, begin_c, end, s_size, b_size);
    let src_buffer: Vec<u8> = if region.s_end > region.s_begin {
        let fd = match open_read(&file.path) {
            Ok(fd) => fd,
            Err(e) => {
                return Err(e);
            },
        };
        match read_exact_at(&fd, region.s_begin as u64, region.s_end - region.s_begin) {
            Ok(v) => v,
            Err(e) => {
                return Err(e);
            },
        }
    } else {
        Vec::new()
    };
    let mut s_slice = src_buffer;
    let mut d_slice = copy_range(&file.content, region.d_begin, region.d_end);
    let ghost spart = s_slice@;
    let ghost dpart = d_slice@;
    let ghost sdisk = Seq::new(region.s_begin as nat, |i: int| 0u8) + spart + Seq::new(
        (s_size - region.s_end) as nat,
        |i: int| 0u8,
    );
    proof {
        assert(sdisk.len() == s_size);
        assert(sdisk.subrange(region.s_begin as int, region.s_end as int) =~= spart);
    }
    let out: Vec<u8> = match t {
        PatchType::Prepend => {
            d_slice.append(&mut s_slice);
            d_slice
        },
        PatchType::Append => {
            s_slice.append(&mut d_slice);
            s_slice
        },
        PatchType::Replace => d_slice,
    };
    proof {
        lemma_stitched_window(
            t,
            sdisk,
            file.content@,
            begin,
            size,
            max_index,
            m as int,
            begin_c as int,
            end as int,
            region,
            spart,
            dpart,
            out@,
        );
    }
    Ok(out)
}

/// Reads the window `[begin, begin + size)` of the virtual content, clamped
/// at its end, with both sources in hand: the whole real file `s` and the
/// blob `b`.  Returns exactly `V[begin .. min(begin + size, |V|)]`.
pub fn read_window(t: PatchType, s: &Vec<u8>, b: &Vec<u8>, begin: usize, size: usize) -> (r: Vec<
    u8,
>)
    requires
        s.len() + b.len() <= usize::MAX,
        begin <= virtual_size(t, s.len() as nat, b.len() as nat),
    ensures
        r@ == virtual_bytes(t, s@, b@).subrange(
            begin as int,
            min(begin + size, virtual_size(t, s@.len(), b@.len()) as int),
        ),
{
    let vsize: usize = match t {
        PatchType::Replace => b.len(),
        PatchType::Append => s.len() + b.len(),
        PatchType::Prepend => s.len() + b.len(),
    };
    let end: usize = if vsize - begin < size {
        vsize
    } else {
        begin + size
    };
    let region = compute_region(t, begin, end, s.len(), b.len());
    let mut s_slice = copy_range(s, region.s_begin, region.s_end);
    let mut d_slice = copy_range(b, region.d_begin, region.d_end);
    proof {
        lemma_region_covers(t, s@, b@, begin as int, end as int);
    }
    match t {
        PatchType::Prepend => {
            d_slice.append(&mut s_slice);
            d_slice
        },
        PatchType::Append => {
            s_slice.append(&mut d_slice);
            s_slice
        },
        PatchType::Replace => d_slice,
    }
}

/// One patch record equals another in content: same mode, path bytes, blob
/// bytes.
pub open spec fn record_view_eq(f: PatchedFile, g: PatchedFile) -> bool {
    f.patch_type == g.patch_type && f.path@ == g.path@ && f.content@ == g.content@
}

/// Entry `e` is the synthetic entry for record `f` statted as `st`: named by
/// `f`'s path, backed by `f`, with `f`'s adjusted attributes — except that
/// the inode may have been server-assigned instead of `st.ino` when the real
/// inode would collide.
pub open spec fn entry_for(e: FuseEntry, f: PatchedFile, st: StatInfo) -> bool {
    &&& e.name@ == entry_name_spec(f.path@)
    &&& e.src matches Some(g) && record_view_eq(g, f)
    &&& e.attr == FileAttr { ino: e.attr.ino, ..attr_of(f.patch_type, f.content@.len(), st) }
}

/// No earlier record produces the same entry name as record `i`.
pub open spec fn first_name_occurrence(files: Seq<PatchedFile>, i: int) -> bool {
    forall|j: int|
        0 <= j < i ==> entry_name_spec(files[j].path@) != entry_name_spec(files[i].path@)
}

/// Entry `e` is the synthetic entry for record `f` with nothing replaced:
/// even the inode is the target's real one.
pub open spec fn entry_for_exact(e: FuseEntry, f: PatchedFile, st: StatInfo) -> bool {
    &&& entry_for(e, f, st)
    &&& e.attr == attr_of(f.patch_type, f.content@.len(), st)
}

/// The stat snapshots carry pairwise distinct inodes, none the root's: the
/// situation in which no server-assigned fallback is ever needed.
pub open spec fn stats_distinct(stats: Seq<StatInfo>) -> bool {
    &&& forall|i: int, j: int|
        0 <= i < j < stats.len() ==> (#[trigger] stats[i]).ino != (#[trigger] stats[j]).ino
    &&& forall|i: int| 0 <= i < stats.len() ==> (#[trigger] stats[i]).ino != ROOT_INO
}

/// Every synthetic entry comes from one of the records with the target's
/// real inode kept.
pub open spec fn entries_correspond_exact(
    entries: Seq<FuseEntry>,
    files: Seq<PatchedFile>,
    stats: Seq<StatInfo>,
) -> bool {
    forall|k: int|
        2 <= k < entries.len() ==> ((#[trigger] entries[k]).src is Some && exists|i: int|
            0 <= i < files.len() && entry_for_exact(entries[k], files[i], stats[i]))
}

/// The indices below `upto` of the records the directory keeps: the first
/// occurrence of each entry name, in input order.
pub open spec fn kept_indices(files: Seq<PatchedFile>, upto: int) -> Seq<int>
    decreases upto,
{
    if upto <= 0 {
        Seq::empty()
    } else if first_name_occurrence(files, upto - 1) {
        kept_indices(files, upto - 1).push(upto - 1)
    } else {
        kept_indices(files, upto - 1)
    }
}

/// The synthetic entries stand in input order: entry `k + 2` is built from
/// the `k`-th kept record.
pub open spec fn entries_in_order(
    entries: Seq<FuseEntry>,
    files: Seq<PatchedFile>,
    stats: Seq<StatInfo>,
) -> bool {
    let kept = kept_indices(files, files.len() as int);
    &&& entries.len() == 2 + kept.len()
    &&& forall|k: int|
        0 <= k < kept.len() ==> 0 <= kept[k] < files.len() && entry_for(
            #[trigger] entries[k + 2],
            files[kept[k]],
            stats[kept[k]],
        )
}

/// Every record has a first occurrence of its entry name at or before it.
proof fn lemma_first_occurrence_of(files: Seq<PatchedFile>, i: int) -> (j: int)
    requires
        0 <= i < files.len(),
    ensures
        0 <= j <= i,
        entry_name_spec(files[j].path@) == entry_name_spec(files[i].path@),
        first_name_occurrence(files, j),
    decreases i,
{
    if first_name_occurrence(files, i) {
        i
    } else {
        let j0 = choose|j: int|
            0 <= j < i && entry_name_spec(files[j].path@) == entry_name_spec(files[i].path@);
        lemma_first_occurrence_of(files, j0)
    }
}

/// The input-order law follows from the witness table being exactly the
/// kept indices.
proof fn lemma_order_from_wit(
    entries: Seq<FuseEntry>,
    files: Seq<PatchedFile>,
    stats: Seq<StatInfo>,
    wit: Seq<int>,
)
    requires
        wit == kept_indices(files, files.len() as int),
        wit.len() + 2 == entries.len(),
        forall|k: int|
            0 <= k < wit.len() ==> 0 <= #[trigger] wit[k] < files.len() && entry_for(
                entries[k + 2],
                files[wit[k]],
                stats[wit[k]],
            ),
    ensures
        entries_in_order(entries, files, stats),
{
    let kept = kept_indices(files, files.len() as int);
    assert forall|k: int| 0 <= k < kept.len() implies 0 <= kept[k] < files.len() && entry_for(
        #[trigger] entries[k + 2],
        files[kept[k]],
        stats[kept[k]],
    ) by {
        assert(kept[k] == wit[k]);
    }
}

/// Every synthetic entry comes from one of the records, statted as given.
pub open spec fn entries_correspond(
    entries: Seq<FuseEntry>,
    files: Seq<PatchedFile>,
    stats: Seq<StatInfo>,
) -> bool {
    forall|k: int|
        2 <= k < entries.len() ==> ((#[trigger] entries[k]).src is Some && exists|i: int|
            0 <= i < files.len() && entry_for(entries[k], files[i], stats[i]))
}

/// Every record that was the first with its entry name has an entry.
pub open spec fn first_occurrences_present(
    entries: Seq<FuseEntry>,
    files: Seq<PatchedFile>,
    stats: Seq<StatInfo>,
) -> bool {
    forall|i: int|
        0 <= i < files.len() && #[trigger] first_name_occurrence(files, i) ==> exists|k: int|
            2 <= k < entries.len() && entry_for(entries[k], files[i], stats[i])
}

/// Entry `e` carries record `f`'s name and a copy of `f`, whatever its
/// attributes were statted as.
pub open spec fn entry_from(e: FuseEntry, f: PatchedFile) -> bool {
    &&& e.name@ == entry_name_spec(f.path@)
    &&& e.src matches Some(g) && record_view_eq(g, f)
}

/// Every synthetic entry carries one of the records.
pub open spec fn entries_from(entries: Seq<FuseEntry>, files: Seq<PatchedFile>) -> bool {
    forall|k: int|
        2 <= k < entries.len() ==> ((#[trigger] entries[k]).src is Some && exists|i: int|
            0 <= i < files.len() && entry_from(entries[k], files[i]))
}

/// Every record that was the first with its entry name is carried by some
/// entry.
pub open spec fn names_present(entries: Seq<FuseEntry>, files: Seq<PatchedFile>) -> bool {
    forall|i: int|
        0 <= i < files.len() && #[trigger] first_name_occurrence(files, i) ==> exists|k: int|
            2 <= k < entries.len() && entry_from(entries[k], files[i])
}

/// Correspondence follows from a witness table: `wit[k]` names the record
/// behind entry `k + 2`.
proof fn lemma_correspond_from_wit(
    entries: Seq<FuseEntry>,
    files: Seq<PatchedFile>,
    stats: Seq<StatInfo>,
    wit: Seq<int>,
)
    requires
        wit.len() + 2 == entries.len(),
        forall|k: int|
            0 <= k < wit.len() ==> 0 <= #[trigger] wit[k] < files.len() && entry_for(
                entries[k + 2],
                files[wit[k]],
                stats[wit[k]],
            ),
    ensures
        entries_correspond(entries, files, stats),
{
    assert forall|k: int| 2 <= k < entries.len() implies ((#[trigger] entries[k]).src is Some
        && exists|i: int| 0 <= i < files.len() && entry_for(entries[k], files[i], stats[i])) by {
        let i0 = wit[k - 2];
        assert(0 <= i0 < files.len() && entry_for(entries[k], files[i0], stats[i0]));
    }
}

/// Exact correspondence follows from a witness table whose entries kept
/// their targets' real inodes.
proof fn lemma_correspond_exact_from_wit(
    entries: Seq<FuseEntry>,
    files: Seq<PatchedFile>,
    stats: Seq<StatInfo>,
    wit: Seq<int>,
)
    requires
        wit.len() + 2 == entries.len(),
        forall|k: int|
            0 <= k < wit.len() ==> 0 <= #[trigger] wit[k] < files.len() && entry_for_exact(
                entries[k + 2],
                files[wit[k]],
                stats[wit[k]],
            ),
    ensures
        entries_correspond_exact(entries, files, stats),
{
    assert forall|k: int| 2 <= k < entries.len() implies ((#[trigger] entries[k]).src is Some
        && exists|i: int| 0 <= i < files.len() && entry_for_exact(entries[k], files[i], stats[i])) by {
        let i0 = wit[k - 2];
        assert(0 <= i0 < files.len() && entry_for_exact(entries[k], files[i0], stats[i0]));
    }
}

/// Presence of all first occurrences follows from a witness table: `occ[i]`
/// names the entry built for record `i`.
proof fn lemma_present_from_occ(
    entries: Seq<FuseEntry>,
    files: Seq<PatchedFile>,
    stats: Seq<StatInfo>,
    occ: Map<int, int>,
)
    requires
        forall|i: int|
            0 <= i < files.len() && #[trigger] first_name_occurrence(files, i)
                ==> occ.dom().contains(i),
        forall|i: int|
            #[trigger] occ.dom().contains(i) ==> 0 <= i < files.len() && 2 <= occ[i]
                < entries.len() && entry_for(entries[occ[i]], files[i], stats[i]),
    ensures
        first_occurrences_present(entries, files, stats),
{
    assert forall|i: int| 0 <= i < files.len() && #[trigger] first_name_occurrence(files, i)
        implies exists|k: int|
        2 <= k < entries.len() && entry_for(entries[k], files[i], stats[i]) by {
        let k0 = occ[i];
        assert(2 <= k0 < entries.len() && entry_for(entries[k0], files[i], stats[i]));
    }
}

/// What the correspondence says without the stat snapshots: each entry
/// carries its record's name and a copy of the record.
proof fn lemma_from_correspond(
    entries: Seq<FuseEntry>,
    files: Seq<PatchedFile>,
    stats: Seq<StatInfo>,
)
    requires
        entries_correspond(entries, files, stats),
        first_occurrences_present(entries, files, stats),
    ensures
        entries_from(entries, files),
        names_present(entries, files),
{
    assert forall|k: int| 2 <= k < entries.len() implies ((#[trigger] entries[k]).src is Some
        && exists|i: int| 0 <= i < files.len() && entry_from(entries[k], files[i])) by {
        let i0 = choose|i: int| 0 <= i < files.len() && entry_for(entries[k], files[i], stats[i]);
        assert(entry_from(entries[k], files[i0]));
    }
    assert forall|i: int| 0 <= i < files.len() && #[trigger] first_name_occurrence(files, i)
        implies exists|k: int|
        2 <= k < entries.len() && entry_from(entries[k], files[i]) by {
        let k0 = choose|k: int|
            2 <= k < entries.len() && entry_for(entries[k], files[i], stats[i]);
        assert(entry_from(entries[k0], files[i]));
    }
}

/// `i` is the first index whose entry is named `name`.
pub open spec fn first_name_match(entries: Seq<FuseEntry>, name: Seq<u8>, i: int) -> bool {
    &&& 0 <= i < entries.len()
    &&& entries[i].name@ == name
    &&& forall|k: int| 0 <= k < i ==> entries[k].name@ != name
}

/// `i` is the first index whose entry carries inode `ino`.
pub open spec fn first_ino_match(entries: Seq<FuseEntry>, ino: u64, i: int) -> bool {
    &&& 0 <= i < entries.len()
    &&& entries[i].attr.ino == ino
    &&& forall|k: int| 0 <= k < i ==> entries[k].attr.ino != ino
}

/// The synthetic directory: the two pseudo-entries `.` and `..` first, then
/// one entry per patch record.  Read-only after construction.
pub struct MirrorFileSystem {
    pub entries: Vec<FuseEntry>,
}

impl MirrorFileSystem {
    /// Well-formedness: the pseudo-entries sit at the front and point at the
    /// root inode; among the synthetic entries, names are unique, inodes are
    /// unique and never the root inode, and each is backed by a record.
    pub open spec fn wf(&self) -> bool {
        &&& self.entries@.len() >= 2
        &&& self.entries@[0].src is None
        &&& self.entries@[1].src is None
        &&& self.entries@[0].attr.ino == ROOT_INO
        &&& self.entries@[1].attr.ino == ROOT_INO
        &&& forall|i: int, j: int|
            2 <= i < j < self.entries@.len() ==> (#[trigger] self.entries@[i]).name@ != (
            #[trigger] self.entries@[j]).name@
        &&& forall|i: int, j: int|
            2 <= i < j < self.entries@.len() ==> (#[trigger] self.entries@[i]).attr.ino != (
            #[trigger] self.entries@[j]).attr.ino
        &&& forall|i: int|
            2 <= i < self.entries@.len() ==> (#[trigger] self.entries@[i]).attr.ino != ROOT_INO
        &&& forall|i: int| 2 <= i < self.entries@.len() ==> (#[trigger] self.entries@[i]).src is Some
    }

    /// Builds the directory from the patch records and one stat snapshot per
    /// record.  Each record gets one entry, in input order after the two
    /// pseudo-entries, except that a record whose entry name repeats an
    /// earlier one is dropped (duplicate targets are
    /// undefined; the first wins, as lookup would pick it anyway).  An inode
    /// that repeats an earlier entry's inode — or the root's — is replaced
    /// by a fresh server-assigned one, so the uniqueness invariant holds
    /// unconditionally.
    #[verifier::rlimit(100)]
    pub fn new(files: Vec<PatchedFile>, stats: Vec<StatInfo>, uid: u32, gid: u32) -> (r: Self)
        requires
            files@.len() == stats@.len(),
            files@.len() < u64::MAX,
            forall|i: int|
                0 <= i < stats@.len() ==> (#[trigger] stats@[i]).size + files@[i].content@.len()
                    <= u64::MAX,
            forall|i: int|
                0 <= i < stats@.len() ==> (#[trigger] stats@[i]).ino <= u64::MAX - stats@.len(),
        ensures
            r.wf(),
            r.entries@.len() <= 2 + files@.len(),
            r.entries@[0].name@ == seq![46u8],
            r.entries@[1].name@ == seq![46u8, 46u8],
            r.entries@[0].attr == root_attr_of(uid, gid),
            r.entries@[1].attr == root_attr_of(uid, gid),
            entries_correspond(r.entries@, files@, stats@),
            entries_in_order(r.entries@, files@, stats@),
            stats_distinct(stats@) ==> entries_correspond_exact(r.entries@, files@, stats@),
            first_occurrences_present(r.entries@, files@, stats@),
    {
        let ghost n = files@.len() as int;
        let mut entries = FuseEntry::specials(uid, gid);
        let mut high: u64 = ROOT_INO;
        let mut idx: usize = 0;
        // Ghost bookkeeping: `wit[k]` names the record that entry `k + 2`
        // was built from; `occ[i]` names the entry built for record `i`, for
        // every record that was the first with its name.
        let ghost mut wit: Seq<int> = Seq::empty();
        let ghost mut occ: Map<int, int> = Map::empty();
        while idx < files.len()
            invariant
                n == files@.len(),
                n < u64::MAX,
                files@.len() == stats@.len(),
                idx <= files@.len(),
                forall|i: int|
                    0 <= i < stats@.len() ==> (#[trigger] stats@[i]).size + files@[i].content@.len()
                        <= u64::MAX,
                forall|i: int|
                    0 <= i < stats@.len() ==> (#[trigger] stats@[i]).ino <= u64::MAX - n,
                entries@.len() >= 2,
                entries@.len() <= 2 + idx,
                entries@[0].src is None,
                entries@[1].src is None,
                entries@[0].attr.ino == ROOT_INO,
                entries@[1].attr.ino == ROOT_INO,
                entries@[0].name@ == seq![46u8],
                entries@[1].name@ == seq![46u8, 46u8],
                entries@[0].attr == root_attr_of(uid, gid),
                entries@[1].attr == root_attr_of(uid, gid),
                high >= ROOT_INO,
                high as int <= u64::MAX - (n - idx),
                forall|k: int|
                    2 <= k < entries@.len() ==> (#[trigger] entries@[k]).attr.ino <= high,
                forall|i: int, j: int|
                    2 <= i < j < entries@.len() ==> (#[trigger] entries@[i]).name@ != (
                    #[trigger] entries@[j]).name@,
                forall|i: int, j: int|
                    2 <= i < j < entries@.len() ==> (#[trigger] entries@[i]).attr.ino != (
                    #[trigger] entries@[j]).attr.ino,
                forall|k: int|
                    2 <= k < entries@.len() ==> (#[trigger] entries@[k]).attr.ino != ROOT_INO,
                forall|k: int| 2 <= k < entries@.len() ==> (#[trigger] entries@[k]).src is Some,
                wit.len() + 2 == entries@.len(),
                wit == kept_indices(files@, idx as int),
                forall|k: int|
                    0 <= k < wit.len() ==> 0 <= #[trigger] wit[k] < idx && entry_for(
                        entries@[k + 2],
                        files@[wit[k]],
                        stats@[wit[k]],
                    ),
                stats_distinct(stats@) ==> forall|k: int|
                    0 <= k < wit.len() ==> entry_for_exact(
                        (#[trigger] entries@[k + 2]),
                        files@[wit[k]],
                        stats@[wit[k]],
                    ),
                forall|i: int|
                    0 <= i < idx && #[trigger] first_name_occurrence(files@, i)
                        ==> occ.dom().contains(i),
                forall|i: int|
                    #[trigger] occ.dom().contains(i) ==> 0 <= i < idx && 2 <= occ[i]
                        < entries@.len() && entry_for(entries@[occ[i]], files@[i], stats@[i]),
            decreases files@.len() - idx,
        {
            let file = &files[idx];
            let st = stats[idx];
            let name = entry_name(&file.path);
            // Duplicate name: an earlier record already produced this entry.
            let mut dup = false;
            let mut k: usize = 2;
            while k < entries.len()
                invariant
                    2 <= k <= entries@.len(),
                    dup <==> exists|j: int|
                        2 <= j < k && (#[trigger] entries@[j]).name@ == name@,
                decreases entries@.len() - k,
            {
                if bytes_eq(&entries[k].name, &name) {
                    dup = true;
                }
                k = k + 1;
            }
            let ghost pre = entries@;
            if !dup {
                // Inode collision: fall back to a fresh server-assigned one.
                let mut collide = st.ino == ROOT_INO;
                let mut k2: usize = 2;
                while k2 < entries.len()
                    invariant
                        2 <= k2 <= entries@.len(),
                        collide <==> st.ino == ROOT_INO || exists|j: int|
                            2 <= j < k2 && (#[trigger] entries@[j]).attr.ino == st.ino,
                    decreases entries@.len() - k2,
                {
                    if entries[k2].attr.ino == st.ino {
                        collide = true;
                    }
                    k2 = k2 + 1;
                }
                let ino: u64 = if collide {
                    high = high + 1;
                    high
                } else {
                    if st.ino > high {
                        high = st.ino;
                    }
                    st.ino
                };
                let path = crate::bytes::clone_bytes(&file.path);
                let content = crate::bytes::clone_bytes(&file.content);
                let record = PatchedFile { patch_type: file.patch_type, path, content };
                let mut attr = generate_attr(&record, &st);
                attr.ino = ino;
                let entry = FuseEntry::new(name, attr, Some(record));
                proof {
                    assert(entry_for(entry, files@[idx as int], stats@[idx as int]));
                }
                entries.push(entry);
                proof {
                    assert(entries@ =~= pre.push(entry));
                    // This record is a first occurrence of its name: the
                    // first occurrence of a repeated name already has an
                    // entry, which the duplicate scan would have found.
                    if !first_name_occurrence(files@, idx as int) {
                        let j = lemma_first_occurrence_of(files@, idx as int);
                        assert(j < idx);
                        assert(occ.dom().contains(j));
                        let kj = occ[j];
                        assert(entry_for(pre[kj], files@[j], stats@[j]));
                        assert(pre[kj].name@ == name@);
                        assert(false);
                    }
                    wit = wit.push(idx as int);
                    assert(wit =~= kept_indices(files@, idx + 1));
                    occ = occ.insert(idx as int, entries@.len() - 1);
                    assert forall|k: int| 0 <= k < wit.len() implies 0 <= #[trigger] wit[k] < idx
                        + 1 && entry_for(entries@[k + 2], files@[wit[k]], stats@[wit[k]]) by {
                        if k < wit.len() - 1 {
                            assert(entries@[k + 2] == pre[k + 2]);
                        } else {
                            assert(entries@[k + 2] == entry);
                        }
                    }
                    if stats_distinct(stats@) {
                        // With distinct real inodes and none the root's, the
                        // collision scan cannot have hit, so the entry kept
                        // its target's inode.
                        if collide {
                            assert(st.ino != ROOT_INO);
                            let j = choose|j: int|
                                2 <= j < pre.len() && (#[trigger] pre[j]).attr.ino == st.ino;
                            let i0 = wit[j - 2];
                            assert(entry_for_exact(pre[j], files@[i0], stats@[i0]));
                            assert(stats@[i0].ino == st.ino);
                            assert(false);
                        }
                        assert forall|k: int| 0 <= k < wit.len() implies entry_for_exact(
                            (#[trigger] entries@[k + 2]),
                            files@[wit[k]],
                            stats@[wit[k]],
                        ) by {
                            if k < wit.len() - 1 {
                                assert(entries@[k + 2] == pre[k + 2]);
                            } else {
                                assert(entries@[k + 2] == entry);
                            }
                        }
                    }
                }
            } else {
                proof {
                    // A duplicate name means an earlier record already owns
                    // it, so this record is not a first occurrence.
                    if first_name_occurrence(files@, idx as int) {
                        let j = choose|j: int|
                            2 <= j < entries@.len() && (#[trigger] entries@[j]).name@ == name@;
                        let i0 = wit[j - 2];
                        assert(entry_for(entries@[j], files@[i0], stats@[i0]));
                        assert(entry_name_spec(files@[i0].path@) == entry_name_spec(
                            files@[idx as int].path@,
                        ));
                        assert(false);
                    }
                    assert(wit =~= kept_indices(files@, idx + 1));
                }
            }
            idx = idx + 1;
        }
        let r = Self { entries };
        proof {
            lemma_correspond_from_wit(r.entries@, files@, stats@, wit);
            lemma_order_from_wit(r.entries@, files@, stats@, wit);
            if stats_distinct(stats@) {
                lemma_correspond_exact_from_wit(r.entries@, files@, stats@, wit);
            }
            lemma_present_from_occ(r.entries@, files@, stats@, occ);
        }
        r
    }

    /// Like [`Self::new`], but stats every target itself; a record whose
    /// target cannot be statted, or whose sizes or inode exceed what the
    /// directory can represent, fails the build.
    pub fn build(files: Vec<PatchedFile>, uid: u32, gid: u32) -> (r: Result<Self, FsError>)
        ensures
            r matches Ok(m) ==> m.wf(),
            r matches Ok(m) ==> entries_from(m.entries@, files@),
            r matches Ok(m) ==> names_present(m.entries@, files@),
            r matches Err(e) ==> e == FsError::Io,
    {
        let n = files.len();
        if n as u64 >= u64::MAX {
            return Err(FsError::Io);
        }
        let mut stats: Vec<StatInfo> = Vec::new();
        let mut i: usize = 0;
        while i < n
            invariant
                i <= n,
                n == files@.len(),
                stats@.len() == i,
                forall|j: int|
                    0 <= j < i ==> (#[trigger] stats@[j]).size + files@[j].content@.len()
                        <= u64::MAX,
                forall|j: int| 0 <= j < i ==> (#[trigger] stats@[j]).ino <= u64::MAX - n,
            decreases n - i,
        {
            let st = match stat_file(&files[i].path) {
                Ok(st) => st,
                Err(e) => {
                    return Err(e);
                },
            };
            if st.size > u64::MAX - files[i].content.len() as u64 {
                return Err(FsError::Io);
            }
            if st.ino > u64::MAX - n as u64 {
                return Err(FsError::Io);
            }
            stats.push(st);
            i = i + 1;
        }
        let m = Self::new(files, stats, uid, gid);
        proof {
            lemma_from_correspond(m.entries@, files@, stats@);
        }
        Ok(m)
    }

    /// Directory lookup under the root: linear search of the entries by
    /// name, first match wins; anything under another parent is absent.
    pub fn lookup(&self, parent: u64, name: &Vec<u8>) -> (r: Result<FileAttr, FsError>)
        ensures
            parent != ROOT_INO ==> r == Err::<FileAttr, FsError>(FsError::NotFound),
            parent == ROOT_INO ==> match r {
                Ok(attr) => exists|i: int|
                    #[trigger] first_name_match(self.entries@, name@, i) && attr
                        == self.entries@[i].attr,
                Err(e) => e == FsError::NotFound && forall|i: int|
                    0 <= i < self.entries@.len() ==> (#[trigger] self.entries@[i]).name@ != name@,
            },
    {
        if parent != ROOT_INO {
            return Err(FsError::NotFound);
        }
        let n = self.entries.len();
        let mut i: usize = 0;
        while i < n
            invariant
                parent == ROOT_INO,
                i <= n,
                n == self.entries@.len(),
                forall|k: int| 0 <= k < i ==> (#[trigger] self.entries@[k]).name@ != name@,
            decreases n - i,
        {
            if bytes_eq(&self.entries[i].name, name) {
                proof {
                    assert(first_name_match(self.entries@, name@, i as int));
                }
                return Ok(self.entries[i].attr);
            }
            i = i + 1;
        }
        Err(FsError::NotFound)
    }

    /// Attributes by inode: the root inode answers with the root attributes;
    /// anything else is a linear search, first match wins.
    pub fn getattr(&self, ino: u64) -> (r: Result<FileAttr, FsError>)
        requires
            self.wf(),
        ensures
            ino == ROOT_INO ==> r == Ok::<FileAttr, FsError>(self.entries@[0].attr),
            ino != ROOT_INO ==> match r {
                Ok(attr) => exists|i: int|
                    #[trigger] first_ino_match(self.entries@, ino, i) && attr
                        == self.entries@[i].attr,
                Err(e) => e == FsError::NotFound && forall|i: int|
                    0 <= i < self.entries@.len() ==> (#[trigger] self.entries@[i]).attr.ino != ino,
            },
    {
        if ino == ROOT_INO {
            return Ok(self.entries[0].attr);
        }
        let n = self.entries.len();
        let mut i: usize = 0;
        while i < n
            invariant
                ino != ROOT_INO,
                i <= n,
                n == self.entries@.len(),
                forall|k: int| 0 <= k < i ==> (#[trigger] self.entries@[k]).attr.ino != ino,
            decreases n - i,
        {
            if self.entries[i].attr.ino == ino {
                proof {
                    assert(first_ino_match(self.entries@, ino, i as int));
                }
                return Ok(self.entries[i].attr);
            }
            i = i + 1;
        }
        Err(FsError::NotFound)
    }

    /// Open by inode: the first entry with this inode must exist and be
    /// backed by a record; the reply's file handle is the inode itself.
    pub fn open(&self, ino: u64) -> (r: Result<u64, FsError>)
        ensures
            match r {
                Ok(fh) => fh == ino && exists|i: int|
                    #[trigger] first_ino_match(self.entries@, ino, i) && self.entries@[i].src
                        is Some,
                Err(e) => e == FsError::Invalid && ((forall|i: int|
                    0 <= i < self.entries@.len() ==> (#[trigger] self.entries@[i]).attr.ino != ino)
                    || (exists|i: int|
                    #[trigger] first_ino_match(self.entries@, ino, i) && self.entries@[i].src
                        is None)),
            },
    {
        let n = self.entries.len();
        let mut i: usize = 0;
        while i < n
            invariant
                i <= n,
                n == self.entries@.len(),
                forall|k: int| 0 <= k < i ==> (#[trigger] self.entries@[k]).attr.ino != ino,
            decreases n - i,
        {
            if self.entries[i].attr.ino == ino {
                proof {
                    assert(first_ino_match(self.entries@, ino, i as int));
                }
                if self.entries[i].src.is_some() {
                    return Ok(ino);
                } else {
                    return Err(FsError::Invalid);
                }
            }
            i = i + 1;
        }
        Err(FsError::Invalid)
    }

    /// Read by inode: the first entry with this inode serves the request
    /// through [`do_read`]; a missing entry is absent, an entry without a
    /// backing record cannot be read.
    pub fn read(&self, ino: u64, begin: u64, size: u32) -> (r: Result<Vec<u8>, FsError>)
        ensures
            r matches Ok(v) ==> exists|i: int|
                {
                    &&& #[trigger] first_ino_match(self.entries@, ino, i)
                    &&& self.entries@[i].src matches Some(f) && exists|sdisk: Seq<u8>|
                        v@ == #[trigger] read_result_spec(
                            f.patch_type,
                            sdisk,
                            f.content@,
                            begin,
                            size,
                            self.entries@[i].attr.size,
                        )
                },
            r == Err::<Vec<u8>, FsError>(FsError::NotFound) <==> forall|i: int|
                0 <= i < self.entries@.len() ==> (#[trigger] self.entries@[i]).attr.ino != ino,
            r == Err::<Vec<u8>, FsError>(FsError::Invalid) <==> exists|i: int|
                #[trigger] first_ino_match(self.entries@, ino, i) && self.entries@[i].src is None,
    {
        let n = self.entries.len();
        let mut i: usize = 0;
        while i < n
            invariant
                i <= n,
                n == self.entries@.len(),
                forall|k: int| 0 <= k < i ==> (#[trigger] self.entries@[k]).attr.ino != ino,
            decreases n - i,
        {
            if self.entries[i].attr.ino == ino {
                proof {
                    assert(first_ino_match(self.entries@, ino, i as int));
                }
                match &self.entries[i].src {
                    Some(file) => {
                        let max_index = self.entries[i].attr.size;
                        return match do_read(file, begin, size, max_index) {
                            Ok(v) => Ok(v),
                            Err(e) => Err(e),
                        };
                    },
                    None => {
                        return Err(FsError::Invalid);
                    },
                }
            }
            i = i + 1;
        }
        Err(FsError::NotFound)
    }

    /// Directory listing of the root from a resume offset: each entry is
    /// reported with its inode, the offset to resume after it, its kind and
    /// its name.  Only the root can be listed.
    pub fn readdir(&self, ino: u64, offset: usize) -> (r: Result<
        Vec<(u64, u64, FileKind, Vec<u8>)>,
        FsError,
    >)
        requires
            self.entries@.len() < u64::MAX,
        ensures
            ino != ROOT_INO ==> r == Err::<Vec<(u64, u64, FileKind, Vec<u8>)>, FsError>(
                FsError::NotFound,
            ),
            ino == ROOT_INO ==> match r {
                Ok(v) => {
                    &&& v@.len() == if offset < self.entries@.len() {
                        self.entries@.len() - offset
                    } else {
                        0
                    }
                    &&& forall|j: int|
                        0 <= j < v@.len() ==> (#[trigger] v@[j]).0 == self.entries@[offset
                            + j].attr.ino && v@[j].1 == offset + j + 1 && v@[j].2
                            == self.entries@[offset + j].attr.kind && v@[j].3@
                            == self.entries@[offset + j].name@
                },
                Err(_) => false,
            },
    {
        if ino != ROOT_INO {
            return Err(FsError::NotFound);
        }
        let n = self.entries.len();
        let mut v: Vec<(u64, u64, FileKind, Vec<u8>)> = Vec::new();
        let mut i: usize = if offset < n {
            offset
        } else {
            n
        };
        while i < n
            invariant
                offset <= i <= n || (offset >= n && i == n),
                n == self.entries@.len(),
                n < u64::MAX,
                v@.len() == i - if offset < n {
                    offset
                } else {
                    n
                },
                i >= offset || i == n,
                forall|j: int|
                    0 <= j < v@.len() ==> (#[trigger] v@[j]).0 == self.entries@[offset + j].attr.ino
                        && v@[j].1 == offset + j + 1 && v@[j].2 == self.entries@[offset
                        + j].attr.kind && v@[j].3@ == self.entries@[offset + j].name@,
            decreases n - i,
        {
            let name = crate::bytes::clone_bytes(&self.entries[i].name);
            v.push((self.entries[i].attr.ino, (i + 1) as u64, self.entries[i].attr.kind, name));
            i = i + 1;
        }
        Ok(v)
    }
}

} // verus!
