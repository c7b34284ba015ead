//! Path identity: the stable digest that names a synthetic entry.
//!
//! A patch record is identified by the MD5 digest of its target path,
//! rendered as lowercase hex.  The digest itself comes from an outside
//! implementation; rendering it as hex is verified here, and the rendering
//! provably never contains the `:` separator used in entry names.

use vstd::prelude::*;

verus! {

/// The 16-byte MD5 digest of a byte sequence.  Stated only by name: the
/// digest is a function of the input bytes alone.
pub uninterp spec fn md5_of(data: Seq<u8>) -> Seq<u8>;

/// Relies on md5::compute: returns the MD5 digest of the input bytes, 16
/// bytes, determined by the input alone.
#[verifier::external_body]
fn md5_digest(data: &Vec<u8>) -> (r: Vec<u8>)
    ensures
        r@ == md5_of(data@),
        r@.len() == 16,
{
    md5::compute(data.as_slice()).0.to_vec()
}

/// The lowercase hex digit for a nibble value.
pub open spec fn hex_digit(n: u8) -> u8 {
    if n < 10 {
        (48 + n) as u8
    } else {
        (87 + n) as u8
    }
}

/// Lowercase hex rendering: two digits per byte, high nibble first.
pub open spec fn hex_of(data: Seq<u8>) -> Seq<u8> {
    Seq::new(
        2 * data.len(),
        |i: int|
            if i % 2 == 0 {
                hex_digit(data[i / 2] / 16)
            } else {
                hex_digit(data[i / 2] % 16)
            },
    )
}

/// Hex digits are `0-9a-f`, so a hex rendering never contains a colon
/// (byte 58); entry names can therefore be split at the first `:`.
pub proof fn lemma_hex_has_no_colon(data: Seq<u8>)
    ensures
        forall|j: int| 0 <= j < hex_of(data).len() ==> hex_of(data)[j] != 58,
{
    assert forall|j: int| 0 <= j < hex_of(data).len() implies hex_of(data)[j] != 58 by {
        let b = data[j / 2];
        assert(b / 16 < 16);
        assert(b % 16 < 16);
    }
}

/// Renders bytes as lowercase hex, two digits per byte.
pub fn to_hex(data: &Vec<u8>) -> (r: Vec<u8>)
    requires
        data.len() <= usize::MAX / 2,
    ensures
        r@ == hex_of(data@),
{
    let mut r: Vec<u8> = Vec::new();
    let mut i: usize = 0;
    while i < data.len()
        invariant
            i <= data.len(),
            data.len() <= usize::MAX / 2,
            r@ =~= hex_of(data@).subrange(0, 2 * i),
        decreases data.len() - i,
    {
        let b = data[i];
        let hi = b / 16;
        let lo = b % 16;
        r.push(if hi < 10 {
            48 + hi
        } else {
            87 + hi
        });
        r.push(if lo < 10 {
            48 + lo
        } else {
            87 + lo
        });
        assert(r@ =~= hex_of(data@).subrange(0, 2 * (i + 1)));
        i = i + 1;
    }
    assert(r@ =~= hex_of(data@));
    r
}

/// A value with a stable hex-rendered digest identity.
pub trait Hash {
    /// The bytes the digest is taken over.
    spec fn hash_input(&self) -> Seq<u8>;

    /// The lowercase-hex MD5 digest of [`Self::hash_input`].
    fn hash(&self) -> (r: Vec<u8>)
        ensures
            r@ == hex_of(md5_of(self.hash_input())),
            r@.len() == 32,
    ;
}

impl Hash for Vec<u8> {
    open spec fn hash_input(&self) -> Seq<u8> {
        self@
    }

    fn hash(&self) -> (r: Vec<u8>)
        ensures
            r@ == hex_of(md5_of(self@)),
            r@.len() == 32,
    {
        let digest = md5_digest(self);
        to_hex(&digest)
    }
}

} // verus!
