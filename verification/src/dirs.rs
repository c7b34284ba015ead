//! Path helpers: the base-name of a path, as the entry naming uses it.
//!
//! The state directory itself (`$HOME/.local/share/<app>`) is derived from
//! the environment by the surrounding program; the library only works with
//! path bytes it is handed.

use vstd::prelude::*;

use crate::bytes::copy_range;

verus! {

/// The suffix of `p` after the last occurrence of `c`; `p` itself when `c`
/// does not occur.
pub open spec fn after_last(p: Seq<u8>, c: u8) -> Seq<u8>
    decreases p.len(),
{
    if p.len() == 0 {
        p
    } else if p.last() == c {
        Seq::<u8>::empty()
    } else {
        after_last(p.drop_last(), c).push(p.last())
    }
}

/// When `c` does not occur in `p`, the suffix after it is all of `p`.
pub proof fn lemma_after_last_absent(p: Seq<u8>, c: u8)
    requires
        forall|k: int| 0 <= k < p.len() ==> p[k] != c,
    ensures
        after_last(p, c) == p,
    decreases p.len(),
{
    if p.len() > 0 {
        lemma_after_last_absent(p.drop_last(), c);
        assert(after_last(p, c) =~= p);
    } else {
        assert(after_last(p, c) =~= p);
    }
}

/// When the last occurrence of `c` in `p` is at `j`, the suffix after it is
/// `p[j + 1 ..]`.
pub proof fn lemma_after_last_hit(p: Seq<u8>, c: u8, j: int)
    requires
        0 <= j < p.len(),
        p[j] == c,
        forall|k: int| j < k < p.len() ==> p[k] != c,
    ensures
        after_last(p, c) == p.subrange(j + 1, p.len() as int),
    decreases p.len(),
{
    if j == p.len() - 1 {
        assert(after_last(p, c) =~= p.subrange(j + 1, p.len() as int));
    } else {
        lemma_after_last_hit(p.drop_last(), c, j);
        assert(after_last(p, c) =~= p.subrange(j + 1, p.len() as int));
    }
}

/// A value with a file-name: the text after the last `/` of its path bytes.
pub trait FileNameString {
    /// The path bytes the name is taken from.
    spec fn name_source(&self) -> Seq<u8>;

    /// The base name: everything after the last `/`, or the whole path when
    /// no `/` occurs.
    fn name_string(&self) -> (r: Vec<u8>)
        ensures
            r@ == after_last(self.name_source(), 47),
    ;
}

impl FileNameString for Vec<u8> {
    open spec fn name_source(&self) -> Seq<u8> {
        self@
    }

    fn name_string(&self) -> (r: Vec<u8>)
        ensures
            r@ == after_last(self@, 47),
    {
        let n = self.len();
        let mut i: usize = n;
        // Scan backwards for the last '/' (byte 47).
        while i > 0
            invariant
                i <= n,
                n == self.len(),
                forall|k: int| i <= k < n ==> self@[k] != 47,
            decreases i,
        {
            if self[i - 1] == 47 {
                let r = copy_range(self, i, n);
                proof {
                    lemma_after_last_hit(self@, 47, i - 1);
                }
                return r;
            }
            i = i - 1;
        }
        let r = copy_range(self, 0, n);
        proof {
            lemma_after_last_absent(self@, 47);
            assert(self@.subrange(0, n as int) =~= self@);
        }
        r
    }
}

} // verus!
