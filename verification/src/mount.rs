//! Mount-table bookkeeping behind cleanup.
//!
//! Cleanup scans `/proc/self/mounts` and detaches every mount whose
//! filesystem source field is the application's own name — the source the
//! synthetic filesystem mounts itself under.  The text of the mounts file is
//! parsed here: lines up to the first empty line, the first two
//! whitespace-separated fields of each.  The model lemmas state what the
//! detach pass achieves: nothing of the application's is left, and a second
//! pass has nothing to do.

use vstd::prelude::*;

use crate::bytes::bytes_eq;
use crate::bytes::copy_range;
use crate::fuse::before_first;

verus! {

/// ASCII whitespace, as field splitting sees it.
pub open spec fn is_ws(b: u8) -> bool {
    b == 32 || b == 9 || b == 10 || b == 12 || b == 13
}

/// The sequence without its leading whitespace.
pub open spec fn trim_start(s: Seq<u8>) -> Seq<u8>
    decreases s.len(),
{
    if s.len() > 0 && is_ws(s[0]) {
        trim_start(s.drop_first())
    } else {
        s
    }
}

/// The longest whitespace-free prefix.
pub open spec fn before_ws(s: Seq<u8>) -> Seq<u8>
    decreases s.len(),
{
    if s.len() == 0 || is_ws(s[0]) {
        Seq::<u8>::empty()
    } else {
        seq![s[0]] + before_ws(s.drop_first())
    }
}

/// The first whitespace-separated field.
pub open spec fn first_token(s: Seq<u8>) -> Seq<u8> {
    before_ws(trim_start(s))
}

/// What follows the first field.
pub open spec fn after_token(s: Seq<u8>) -> Seq<u8> {
    trim_start(s).skip(before_ws(trim_start(s)).len() as int)
}

/// The first two whitespace-separated fields of a mounts line: the
/// filesystem source and the mount point.
pub open spec fn fields2(line: Seq<u8>) -> (Seq<u8>, Seq<u8>) {
    (first_token(line), first_token(after_token(line)))
}

/// The mount table a mounts text describes: one `(source, mount point)` pair
/// per line, up to the first empty line.
pub open spec fn mount_table_of(text: Seq<u8>) -> Seq<(Seq<u8>, Seq<u8>)>
    decreases text.len(),
    via mount_table_of_decreases
{
    if text.len() == 0 {
        Seq::empty()
    } else {
        let line = before_first(text, 10);
        if line.len() == 0 {
            Seq::empty()
        } else {
            let tail = if line.len() == text.len() {
                Seq::<u8>::empty()
            } else {
                text.subrange(line.len() as int + 1, text.len() as int)
            };
            seq![fields2(line)] + mount_table_of(tail)
        }
    }
}

#[via_fn]
proof fn mount_table_of_decreases(text: Seq<u8>) {
    crate::fuse::lemma_before_first_len(text, 10);
}

/// The mount points of the table's entries whose source is `src`: what one
/// cleanup pass detaches.
pub open spec fn targets_of(table: Seq<(Seq<u8>, Seq<u8>)>, src: Seq<u8>) -> Seq<Seq<u8>>
    decreases table.len(),
{
    if table.len() == 0 {
        Seq::empty()
    } else if table[0].0 == src {
        seq![table[0].1] + targets_of(table.drop_first(), src)
    } else {
        targets_of(table.drop_first(), src)
    }
}

/// The table after one cleanup pass: every entry sourced by `src` detached,
/// the rest untouched, in order.
pub open spec fn cleanup_model(table: Seq<(Seq<u8>, Seq<u8>)>, src: Seq<u8>) -> Seq<
    (Seq<u8>, Seq<u8>),
>
    decreases table.len(),
{
    if table.len() == 0 {
        Seq::empty()
    } else if table[0].0 == src {
        cleanup_model(table.drop_first(), src)
    } else {
        seq![table[0]] + cleanup_model(table.drop_first(), src)
    }
}

/// Mount cleanliness: after a cleanup pass, no entry of the table is sourced
/// by the application.
pub proof fn lemma_cleanup_removes_all(table: Seq<(Seq<u8>, Seq<u8>)>, src: Seq<u8>)
    ensures
        forall|j: int|
            0 <= j < cleanup_model(table, src).len() ==> (#[trigger] cleanup_model(table, src)[j]).0
                != src,
    decreases table.len(),
{
    if table.len() > 0 {
        lemma_cleanup_removes_all(table.drop_first(), src);
        assert forall|j: int| 0 <= j < cleanup_model(table, src).len() implies (
        #[trigger] cleanup_model(table, src)[j]).0 != src by {
            if table[0].0 != src {
                if j > 0 {
                    assert(cleanup_model(table, src)[j] == cleanup_model(
                        table.drop_first(),
                        src,
                    )[j - 1]);
                }
            } else {
                assert(cleanup_model(table, src)[j] == cleanup_model(table.drop_first(), src)[j]);
            }
        }
    }
}

/// Idempotent cleanup: a second pass detaches nothing and leaves the table
/// as the first pass left it.
pub proof fn lemma_cleanup_idempotent(table: Seq<(Seq<u8>, Seq<u8>)>, src: Seq<u8>)
    ensures
        targets_of(cleanup_model(table, src), src) == Seq::<Seq<u8>>::empty(),
        cleanup_model(cleanup_model(table, src), src) == cleanup_model(table, src),
    decreases table.len(),
{
    if table.len() == 0 {
        assert(targets_of(cleanup_model(table, src), src) =~= Seq::<Seq<u8>>::empty());
    } else {
        lemma_cleanup_idempotent(table.drop_first(), src);
        if table[0].0 != src {
            let rest = cleanup_model(table.drop_first(), src);
            assert((seq![table[0]] + rest).drop_first() =~= rest);
            assert(cleanup_model(cleanup_model(table, src), src) =~= cleanup_model(table, src));
        }
    }
}

/// What one cleanup pass detaches, straight from the mounts text.
pub open spec fn detach_targets_of(text: Seq<u8>, src: Seq<u8>) -> Seq<Seq<u8>> {
    targets_of(mount_table_of(text), src)
}

/// Leading whitespace ends exactly at the first non-whitespace index.
proof fn lemma_trim_start_at(s: Seq<u8>, i: int)
    requires
        0 <= i <= s.len(),
        forall|k: int| 0 <= k < i ==> is_ws(#[trigger] s[k]),
        i == s.len() || !is_ws(s[i]),
    ensures
        trim_start(s) == s.skip(i),
    decreases i,
{
    if i == 0 {
        assert(trim_start(s) =~= s.skip(0));
    } else {
        lemma_trim_start_at(s.drop_first(), i - 1);
        assert(s.drop_first().skip(i - 1) =~= s.skip(i));
    }
}

/// A whitespace-free run ending at whitespace (or the end) is the
/// whitespace-free prefix.
proof fn lemma_before_ws_at(s: Seq<u8>, j: int)
    requires
        0 <= j <= s.len(),
        forall|k: int| 0 <= k < j ==> !is_ws(#[trigger] s[k]),
        j == s.len() || is_ws(s[j]),
    ensures
        before_ws(s) == s.subrange(0, j),
    decreases j,
{
    if j == 0 {
        assert(before_ws(s) =~= s.subrange(0, 0));
    } else {
        lemma_before_ws_at(s.drop_first(), j - 1);
        assert(s.drop_first().subrange(0, j - 1) =~= s.subrange(1, j));
        assert(before_ws(s) =~= seq![s[0]] + s.subrange(1, j));
        assert(seq![s[0]] + s.subrange(1, j) =~= s.subrange(0, j));
    }
}

/// Extracts the first whitespace-separated field of `s` from index `from`
/// on, and reports where the scan stopped.
fn scan_token(s: &Vec<u8>, from: usize) -> (r: (Vec<u8>, usize))
    requires
        from <= s.len(),
    ensures
        r.0@ == first_token(s@.skip(from as int)),
        from <= r.1 <= s.len(),
        s@.skip(r.1 as int) == after_token(s@.skip(from as int)),
{
    let n = s.len();
    let mut i: usize = from;
    while i < n && (s[i] == 32 || s[i] == 9 || s[i] == 10 || s[i] == 12 || s[i] == 13)
        invariant
            from <= i <= n,
            n == s.len(),
            forall|k: int| from <= k < i ==> is_ws(#[trigger] s@[k]),
        decreases n - i,
    {
        i = i + 1;
    }
    proof {
        lemma_trim_start_at(s@.skip(from as int), i - from);
        assert(s@.skip(from as int).skip(i - from) =~= s@.skip(i as int));
    }
    let start = i;
    let mut j: usize = i;
    while j < n && !(s[j] == 32 || s[j] == 9 || s[j] == 10 || s[j] == 12 || s[j] == 13)
        invariant
            start <= j <= n,
            n == s.len(),
            forall|k: int| start <= k < j ==> !is_ws(#[trigger] s@[k]),
        decreases n - j,
    {
        j = j + 1;
    }
    proof {
        lemma_before_ws_at(s@.skip(start as int), j - start);
        assert(s@.skip(start as int).subrange(0, j - start) =~= s@.subrange(
            start as int,
            j as int,
        ));
        assert(s@.skip(start as int).skip(j - start) =~= s@.skip(j as int));
    }
    let tok = copy_range(s, start, j);
    proof {
        assert(tok@ =~= first_token(s@.skip(from as int)));
    }
    (tok, j)
}

/// Computes the mount points a cleanup pass must detach: for each mounts
/// line up to the first empty line, if the first field (the filesystem
/// source) equals `source`, its second field (the mount point).
pub fn cleanup_targets(text: &Vec<u8>, source: &Vec<u8>) -> (r: Vec<Vec<u8>>)
    ensures
        r.deep_view() == detach_targets_of(text@, source@),
{
    let n = text.len();
    let mut out: Vec<Vec<u8>> = Vec::new();
    let mut pos: usize = 0;
    proof {
        assert(text@.skip(0) =~= text@);
        assert(out.deep_view() =~= Seq::<Seq<u8>>::empty());
        assert(out.deep_view() + detach_targets_of(text@, source@) =~= detach_targets_of(
            text@,
            source@,
        ));
    }
    while pos < n
        invariant
            pos <= n,
            n == text.len(),
            detach_targets_of(text@, source@) == out.deep_view() + detach_targets_of(
                text@.skip(pos as int),
                source@,
            ),
        decreases n - pos,
    {
        let rem = copy_range(text, pos, n);
        let line = crate::fuse::before_first_byte(&rem, 10);
        if line.len() == 0 {
            proof {
                assert(detach_targets_of(text@.skip(pos as int), source@) =~= Seq::<
                    Seq<u8>,
                >::empty());
                assert(out.deep_view() =~= out.deep_view() + Seq::<Seq<u8>>::empty());
            }
            return out;
        }
        let ghost rem_s = rem@;
        let ghost line_s = line@;
        let (f1, after1) = scan_token(&line, 0);
        let (f2, _after2) = scan_token(&line, after1);
        proof {
            assert(line_s.skip(0) =~= line_s);
            assert(f2@ == fields2(line_s).1);
        }
        let ghost old_out = out.deep_view();
        let hit = bytes_eq(&f1, source);
        if hit {
            out.push(f2);
        }
        let consumed = line.len();
        if consumed >= n - pos {
            pos = n;
        } else {
            pos = pos + consumed + 1;
        }
        proof {
            crate::fuse::lemma_before_first_len(rem_s, 10);
            let tail_s = if line_s.len() == rem_s.len() {
                Seq::<u8>::empty()
            } else {
                rem_s.subrange(line_s.len() as int + 1, rem_s.len() as int)
            };
            assert(tail_s =~= text@.skip(pos as int));
            let mt = seq![fields2(line_s)] + mount_table_of(tail_s);
            assert(mount_table_of(rem_s) =~= mt);
            assert(mt.drop_first() =~= mount_table_of(tail_s));
            assert(mt[0] == fields2(line_s));
            if hit {
                assert(detach_targets_of(rem_s, source@) =~= seq![fields2(line_s).1]
                    + detach_targets_of(tail_s, source@));
                assert(out.deep_view() =~~= old_out.push(fields2(line_s).1));
                assert(old_out + (seq![fields2(line_s).1] + detach_targets_of(tail_s, source@))
                    =~~= out.deep_view() + detach_targets_of(tail_s, source@));
            } else {
                assert(detach_targets_of(rem_s, source@) =~= detach_targets_of(tail_s, source@));
            }
            assert(detach_targets_of(text@, source@) == out.deep_view() + detach_targets_of(
                text@.skip(pos as int),
                source@,
            ));
        }
    }
    proof {
        assert(detach_targets_of(text@.skip(pos as int), source@) =~= Seq::<Seq<u8>>::empty());
        assert(out.deep_view() =~= out.deep_view() + Seq::<Seq<u8>>::empty());
    }
    out
}

} // verus!
