//! The module container: two length-prefixed blobs — the constant pool and
//! the bytecode — in one byte stream.

use vstd::prelude::*;

use crate::bytes::{le64_at, lemma_le64_roundtrip, u64_bytes, ToBytecode};
use crate::constpool::LoadError;

verus! {

broadcast use vstd::std_specs::vec::group_vec_axioms;

/// The container bytes: each blob behind its 8-byte little-endian length.
pub open spec fn spec_pack(a: Seq<u8>, b: Seq<u8>) -> Seq<u8> {
    u64_bytes(a.len() as u64) + a + u64_bytes(b.len() as u64) + b
}

/// Frame the two blobs of a module into one stream.
pub fn pack_blobs(a: &Vec<u8>, b: &Vec<u8>) -> (r: Vec<u8>)
    ensures
        r@ == spec_pack(a@, b@),
{
    let mut out: Vec<u8> = Vec::new();
    let la = a.len() as u64;
    la.to_bytes(&mut out);
    let mut i: usize = 0;
    let ghost m0 = out@;
    while i < a.len()
        invariant
            i <= a@.len(),
            out@ == m0 + a@.subrange(0, i as int),
        decreases a@.len() - i,
    {
        out.push(a[i]);
        assert(out@ =~= m0 + a@.subrange(0, i + 1 as int));
        i = i + 1;
    }
    assert(a@.subrange(0, a@.len() as int) =~= a@);
    let lb = b.len() as u64;
    lb.to_bytes(&mut out);
    let mut i: usize = 0;
    let ghost m1 = out@;
    while i < b.len()
        invariant
            i <= b@.len(),
            out@ == m1 + b@.subrange(0, i as int),
        decreases b@.len() - i,
    {
        out.push(b[i]);
        assert(out@ =~= m1 + b@.subrange(0, i + 1 as int));
        i = i + 1;
    }
    assert(b@.subrange(0, b@.len() as int) =~= b@);
    assert(out@ =~= spec_pack(a@, b@));
    out
}

/// What a container stream holds, if it is well formed: the stream must be
/// exactly two length-prefixed blobs with nothing trailing.
pub open spec fn spec_unpack(s: Seq<u8>) -> Result<(Seq<u8>, Seq<u8>), LoadError> {
    if s.len() < 8 {
        Err(LoadError::Truncated)
    } else {
        let la = le64_at(s, 0);
        if 8 + la + 8 > s.len() {
            Err(LoadError::Truncated)
        } else {
            let a = s.subrange(8, 8 + la);
            let lb = le64_at(s, 8 + la);
            if 8 + la + 8 + lb != s.len() {
                Err(LoadError::Truncated)
            } else {
                Ok((a, s.subrange(8 + la + 8, s.len() as int)))
            }
        }
    }
}

/// Split a container stream back into its two blobs.
pub fn unpack_blobs(bytes: &Vec<u8>) -> (r: Result<(Vec<u8>, Vec<u8>), LoadError>)
    ensures
        match r {
            Ok((a, b)) => spec_unpack(bytes@) == Ok::<(Seq<u8>, Seq<u8>), LoadError>((a@, b@)),
            Err(e) => spec_unpack(bytes@) == Err::<(Seq<u8>, Seq<u8>), LoadError>(e),
        },
{
    let n = bytes.len();
    if n < 8 {
        return Err(LoadError::Truncated);
    }
    let la64 = crate::bytes::read_u64_le(bytes, 0);
    if la64 > (n - 8) as u64 || (n - 8) as u64 - la64 < 8 {
        return Err(LoadError::Truncated);
    }
    let la = la64 as usize;
    let mut a: Vec<u8> = Vec::new();
    let mut i: usize = 0;
    while i < la
        invariant
            la + 16 <= n,
            n == bytes@.len(),
            i <= la,
            a@ == bytes@.subrange(8, 8 + i as int),
        decreases la - i,
    {
        a.push(bytes[8 + i]);
        assert(a@ =~= bytes@.subrange(8, 8 + (i + 1) as int));
        i = i + 1;
    }
    let lb64 = crate::bytes::read_u64_le(bytes, 8 + la);
    if lb64 != (n - 16 - la) as u64 {
        return Err(LoadError::Truncated);
    }
    let lb = lb64 as usize;
    let mut b: Vec<u8> = Vec::new();
    let mut i: usize = 0;
    while i < lb
        invariant
            la + 16 + lb <= n,
            n == bytes@.len(),
            i <= lb,
            b@ == bytes@.subrange(16 + la as int, 16 + la + i as int),
        decreases lb - i,
    {
        b.push(bytes[16 + la + i]);
        assert(b@ =~= bytes@.subrange(16 + la as int, 16 + la + (i + 1) as int));
        i = i + 1;
    }
    assert(b@ =~= bytes@.subrange(8 + la64 + 8, bytes@.len() as int));
    Ok((a, b))
}

/// Round trip: unpacking a packed pair gives the pair back.
#[verifier::rlimit(100)]
#[verifier::spinoff_prover]
pub proof fn lemma_container_roundtrip(a: Seq<u8>, b: Seq<u8>)
    requires
        a.len() <= u64::MAX,
        b.len() <= u64::MAX,
    ensures
        spec_unpack(spec_pack(a, b)) == Ok::<(Seq<u8>, Seq<u8>), LoadError>((a, b)),
{
    let s = spec_pack(a, b);
    assert(s.len() == 16 + a.len() + b.len());
    assert forall|k: int| 0 <= k < 8 implies #[trigger] s.subrange(0, 8)[k] == u64_bytes(
        (a.len() as u64),
    )[k] by {
        assert(s[k] == u64_bytes((a.len() as u64))[k]);
    }
    assert(s.subrange(0, 8) =~= u64_bytes(a.len() as u64));
    lemma_le64_roundtrip(s, 0, a.len() as u64);
    let la = le64_at(s, 0);
    assert(la == a.len());
    assert(s.subrange(8, 8 + la) =~= a);
    assert forall|k: int| 0 <= k < 8 implies #[trigger] s.subrange(8 + la, 8 + la + 8)[k]
        == u64_bytes((b.len() as u64))[k] by {
        assert(s[8 + la + k] == u64_bytes((b.len() as u64))[k]);
    }
    assert(s.subrange(8 + la, 8 + la + 8) =~= u64_bytes(b.len() as u64));
    lemma_le64_roundtrip(s, 8 + la, b.len() as u64);
    assert(le64_at(s, 8 + la) == b.len());
    assert(s.subrange(8 + la + 8, s.len() as int) =~= b);
}

} // verus!
