//! Byte-level helpers and the digest that every accumulator root is built from.

use vstd::prelude::*;

verus! {

/// The digest of a byte string.  The value is produced by an outside hash
/// function and depends on the input bytes alone; nothing further is assumed
/// about it.
pub uninterp spec fn hash_bytes(data: Seq<u8>) -> Seq<u8>;

/// Relies on `digest::Digest::digest` for `blake2::Blake2b512`: the digest is
/// a function of the input bytes alone and is 64 bytes long.
#[verifier::external_body]
pub fn hash_data(data: &Vec<u8>) -> (r: Vec<u8>)
    ensures
        r@ == hash_bytes(data@),
        r@.len() == 64,
{
    <blake2::Blake2b512 as digest::Digest>::digest(data.as_slice()).to_vec()
}

/// An owned copy of a byte string.
pub fn copy_bytes(v: &Vec<u8>) -> (r: Vec<u8>)
    ensures
        r@ == v@,
{
    let r = v.clone();
    proof {
        assert(r@ =~= v@);
    }
    r
}

/// The concatenation of two byte strings.
pub fn concat_bytes(a: &Vec<u8>, b: &Vec<u8>) -> (r: Vec<u8>)
    ensures
        r@ == a@ + b@,
{
    let mut r = copy_bytes(a);
    let mut i: usize = 0;
    while i < b.len()
        invariant
            i <= b.len(),
            r@ == a@ + b@.take(i as int),
        decreases b.len() - i,
    {
        r.push(b[i]);
        proof {
            assert(a@ + b@.take(i + 1 as int) =~= (a@ + b@.take(i as int)).push(b@[i as int]));
        }
        i = i + 1;
    }
    proof {
        assert(b@.take(b@.len() as int) =~= b@);
    }
    r
}

/// True when two byte strings hold the same bytes.
pub fn bytes_eq(a: &Vec<u8>, b: &Vec<u8>) -> (r: bool)
    ensures
        r == (a@ == b@),
{
    let r = *a == *b;
    proof {
        if a@.len() == b@.len() && (forall|i: int| 0 <= i < a@.len() ==> a@[i] == b@[i]) {
            assert(a@ =~= b@);
        }
    }
    r
}

} // verus!
