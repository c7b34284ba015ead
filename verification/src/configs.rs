//! Patch records and the virtual byte stream they denote.
//!
//! A patch nominates a real target file and a blob that is virtually
//! prepended, appended, or substituted for the file's contents.  Loading the
//! TOML configuration is a collaborator's job; this module receives the
//! decoded sections as plain values and assembles the record sequence.

use vstd::prelude::*;

use crate::bytes::clone_bytes;

verus! {

/// How a blob composes with the target file's bytes.
#[derive(Debug, Copy, Clone, PartialEq, Eq, Structural)]
pub enum PatchType {
    Prepend,
    Append,
    Replace,
}

/// One patch: a real target path (raw Unix path bytes) and the blob composed
/// with its contents.  Immutable after load.
#[derive(Debug, Clone)]
pub struct PatchedFile {
    pub patch_type: PatchType,
    pub path: Vec<u8>,
    pub content: Vec<u8>,
}

/// The virtual content `V`: the bytes a reader of the patched path observes,
/// given the real file's bytes `s` and the blob `b`.
pub open spec fn virtual_bytes(t: PatchType, s: Seq<u8>, b: Seq<u8>) -> Seq<u8> {
    match t {
        PatchType::Replace => b,
        PatchType::Append => s + b,
        PatchType::Prepend => b + s,
    }
}

/// `|V|` from the two lengths alone: `|b|` for Replace, `|s| + |b|` otherwise.
pub open spec fn virtual_size(t: PatchType, s_len: nat, b_len: nat) -> nat {
    match t {
        PatchType::Replace => b_len,
        PatchType::Append => s_len + b_len,
        PatchType::Prepend => s_len + b_len,
    }
}

/// The two virtual-content views agree: the size law gives the length of the
/// byte stream.
pub proof fn lemma_virtual_size_is_len(t: PatchType, s: Seq<u8>, b: Seq<u8>)
    ensures
        virtual_bytes(t, s, b).len() == virtual_size(t, s.len(), b.len()),
{
}

/// Assembles the record sequence from the three decoded config sections,
/// preserving order within each section; prepend records come first, then
/// append, then replace, as the loader pushes them.
pub fn from_sections(
    prepend: Vec<(Vec<u8>, Vec<u8>)>,
    append: Vec<(Vec<u8>, Vec<u8>)>,
    replace: Vec<(Vec<u8>, Vec<u8>)>,
) -> (r: Vec<PatchedFile>)
    ensures
        r.len() == prepend.len() + append.len() + replace.len(),
        forall|i: int|
            0 <= i < prepend.len() ==> #[trigger] r[i].patch_type == PatchType::Prepend
                && r[i].path@ == prepend[i].0@ && r[i].content@ == prepend[i].1@,
        forall|i: int|
            0 <= i < append.len() ==> #[trigger] r[prepend.len() + i].patch_type
                == PatchType::Append && r[prepend.len() + i].path@ == append[i].0@ && r[prepend.len()
                + i].content@ == append[i].1@,
        forall|i: int|
            0 <= i < replace.len() ==> #[trigger] r[prepend.len() + append.len()
                + i].patch_type == PatchType::Replace && r[prepend.len() + append.len() + i].path@
                == replace[i].0@ && r[prepend.len() + append.len() + i].content@ == replace[i].1@,
{
    let mut r: Vec<PatchedFile> = Vec::new();
    push_section(&mut r, PatchType::Prepend, prepend);
    let ghost r1 = r@;
    push_section(&mut r, PatchType::Append, append);
    let ghost r2 = r@;
    push_section(&mut r, PatchType::Replace, replace);
    proof {
        assert forall|i: int| 0 <= i < prepend.len() implies r[i].patch_type == PatchType::Prepend
            && r[i].path@ == prepend[i].0@ && r[i].content@ == prepend[i].1@ by {
            assert(r@[i] == r2[i]);
            assert(r2[i] == r1[i]);
            assert(r1[0 + i].patch_type == PatchType::Prepend && r1[0 + i].path@ == prepend[i].0@
                && r1[0 + i].content@ == prepend[i].1@);
        }
        assert forall|i: int| 0 <= i < append.len() implies r[prepend.len() + i].patch_type
            == PatchType::Append && r[prepend.len() + i].path@ == append[i].0@ && r[prepend.len()
            + i].content@ == append[i].1@ by {
            assert(r@[prepend.len() + i] == r2[r1.len() + i]);
            assert(r2[r1.len() + i].patch_type == PatchType::Append && r2[r1.len() + i].path@
                == append[i].0@ && r2[r1.len() + i].content@ == append[i].1@);
        }
        assert forall|i: int| 0 <= i < replace.len() implies r[prepend.len() + append.len()
            + i].patch_type == PatchType::Replace && r[prepend.len() + append.len() + i].path@
            == replace[i].0@ && r[prepend.len() + append.len() + i].content@ == replace[i].1@ by {
            assert(r@[r2.len() + i].patch_type == PatchType::Replace && r@[r2.len() + i].path@
                == replace[i].0@ && r@[r2.len() + i].content@ == replace[i].1@);
        }
    }
    r
}

/// Appends one section's `(path, content)` pairs to the record vector, all
/// under the given mode, in order.
fn push_section(r: &mut Vec<PatchedFile>, t: PatchType, models: Vec<(Vec<u8>, Vec<u8>)>)
    ensures
        final(r).len() == old(r).len() + models.len(),
        forall|i: int| 0 <= i < old(r).len() ==> #[trigger] final(r)[i] == old(r)[i],
        forall|i: int|
            0 <= i < models.len() ==> #[trigger] final(r)[old(r).len() + i].patch_type == t
                && final(r)[old(r).len() + i].path@ == models[i].0@ && final(r)[old(r).len()
                + i].content@ == models[i].1@,
{
    let base = r.len();
    let n = models.len();
    let mut k: usize = 0;
    while k < n
        invariant
            n == models.len(),
            r.len() == base + k,
            k <= n,
            base == old(r).len(),
            forall|i: int| 0 <= i < base ==> #[trigger] r@[i] == old(r)@[i],
            forall|i: int|
                0 <= i < k ==> #[trigger] r@[base + i].patch_type == t && r@[base + i].path@
                    == models@[i].0@ && r@[base + i].content@ == models@[i].1@,
        decreases n - k,
    {
        let pair = &models[k];
        let path = clone_bytes(&pair.0);
        let content = clone_bytes(&pair.1);
        r.push(PatchedFile { patch_type: t, path, content });
        k = k + 1;
    }
}

} // verus!
