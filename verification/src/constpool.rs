//! The constant-pool blob: tagged records, one per literal.
//!
//! Record kinds: `0` an integer (8 little-endian bytes), `1` a double (its
//! 8 bit-pattern bytes), `2` a string (8 length bytes, then the UTF-8
//! payload), `3` the boolean true, `4` the boolean false.  Any other kind
//! byte makes the module invalid.  An `Empty` literal contributes nothing.

use vstd::prelude::*;
use vstd::string::StrSliceExecFns;

use crate::bytes::{le64_at, lemma_le64_roundtrip, u64_bytes, ToBytecode};
use crate::operators::Literal;
use crate::symbols::SymbolMap;
use crate::value::Data;

verus! {

broadcast use vstd::std_specs::vec::group_vec_axioms;

/// Why a module's constant blob cannot be loaded.
#[derive(Clone, Copy, Debug, PartialEq, Eq, Structural)]
pub enum LoadError {
    /// A record kind byte outside the catalogue.
    UnknownTag(u8),
    /// The blob ends inside a record.
    Truncated,
}

/// The bytes of one literal's record.  A string's payload is its UTF-8
/// encoding, looked up in the symbol table.
pub open spec fn lit_record(l: Literal, symbols: Seq<Seq<char>>) -> Seq<u8> {
    match l {
        Literal::Integer(v) => seq![0u8] + u64_bytes(v as u64),
        Literal::Float(bits) => seq![1u8] + u64_bytes(bits),
        Literal::Str(s) => {
            let payload = vstd::utf8::encode_utf8(symbols[s.0 as int]);
            seq![2u8] + u64_bytes(payload.len() as u64) + payload
        },
        Literal::Bool(b) => if b {
            seq![3u8]
        } else {
            seq![4u8]
        },
        Literal::Empty => Seq::<u8>::empty(),
    }
}

/// The whole blob: the records in pool order.
pub open spec fn spec_encode_constants(pool: Seq<Literal>, symbols: Seq<Seq<char>>) -> Seq<u8>
    decreases pool.len(),
{
    if pool.len() == 0 {
        Seq::<u8>::empty()
    } else {
        lit_record(pool.first(), symbols) + spec_encode_constants(pool.drop_first(), symbols)
    }
}

/// Encode a constant pool as its blob.
pub fn encode_constants(pool: &Vec<Literal>, symbol_map: &SymbolMap) -> (r: Vec<u8>)
    requires
        forall|i: int|
            0 <= i < pool@.len() ==> ((#[trigger] pool@[i]) matches Literal::Str(s) ==> s.0
                < symbol_map@.len()),
    ensures
        r@ == spec_encode_constants(pool@, symbol_map@),
{
    let mut out: Vec<u8> = Vec::new();
    let mut i: usize = 0;
    while i < pool.len()
        invariant
            i <= pool@.len(),
            forall|j: int|
                0 <= j < pool@.len() ==> ((#[trigger] pool@[j]) matches Literal::Str(s) ==> s.0
                    < symbol_map@.len()),
            out@ == spec_encode_constants(pool@.subrange(0, i as int), symbol_map@),
        decreases pool@.len() - i,
    {
        let ghost pre = out@;
        match pool[i] {
            Literal::Integer(v) => {
                out.push(0u8);
                let x = v as u64;
                x.to_bytes(&mut out);
                assert(out@ =~= pre + lit_record(pool@[i as int], symbol_map@));
            },
            Literal::Float(bits) => {
                out.push(1u8);
                bits.to_bytes(&mut out);
                assert(out@ =~= pre + lit_record(pool@[i as int], symbol_map@));
            },
            Literal::Str(s) => {
                let text = symbol_map.get(s);
                let payload = text.as_bytes_vec();
                out.push(2u8);
                let len64 = payload.len() as u64;
                len64.to_bytes(&mut out);
                let mut k: usize = 0;
                let ghost mid = out@;
                while k < payload.len()
                    invariant
                        k <= payload@.len(),
                        out@ == mid + payload@.subrange(0, k as int),
                    decreases payload@.len() - k,
                {
                    out.push(payload[k]);
                    assert(out@ =~= mid + payload@.subrange(0, k + 1 as int));
                    k = k + 1;
                }
                assert(payload@.subrange(0, payload@.len() as int) =~= payload@);
                assert(out@ =~= pre + lit_record(pool@[i as int], symbol_map@));
            },
            Literal::Bool(b) => {
                if b {
                    out.push(3u8);
                } else {
                    out.push(4u8);
                }
                assert(out@ =~= pre + lit_record(pool@[i as int], symbol_map@));
            },
            Literal::Empty => {
                assert(out@ =~= pre + lit_record(pool@[i as int], symbol_map@));
            },
        }
        proof {
            lemma_encode_snoc(pool@.subrange(0, i + 1 as int), symbol_map@);
            assert(pool@.subrange(0, i + 1 as int).drop_last() =~= pool@.subrange(0, i as int));
            assert(pool@.subrange(0, i + 1 as int).last() == pool@[i as int]);
        }
        i = i + 1;
    }
    assert(pool@.subrange(0, pool@.len() as int) =~= pool@);
    out
}

/// Appending one literal appends its record.
proof fn lemma_encode_snoc(pool: Seq<Literal>, symbols: Seq<Seq<char>>)
    requires
        pool.len() >= 1,
    ensures
        spec_encode_constants(pool, symbols) == spec_encode_constants(pool.drop_last(), symbols)
            + lit_record(pool.last(), symbols),
    decreases pool.len(),
{
    if pool.len() == 1 {
        assert(pool.drop_first() =~= Seq::<Literal>::empty());
        assert(pool.drop_last() =~= Seq::<Literal>::empty());
        assert(spec_encode_constants(Seq::<Literal>::empty(), symbols) == Seq::<u8>::empty());
        assert(pool.first() == pool.last());
        assert(spec_encode_constants(pool, symbols) == lit_record(pool.first(), symbols)
            + Seq::<u8>::empty());
        assert(lit_record(pool.first(), symbols) + Seq::<u8>::empty() =~= lit_record(
            pool.last(),
            symbols,
        ));
        assert(Seq::<u8>::empty() + lit_record(pool.last(), symbols) =~= lit_record(
            pool.last(),
            symbols,
        ));
    } else {
        lemma_encode_snoc(pool.drop_first(), symbols);
        assert(pool.drop_first().drop_last() =~= pool.drop_last().drop_first());
        assert(pool.drop_first().last() == pool.last());
        assert(pool.drop_last().first() == pool.first());
        assert(spec_encode_constants(pool, symbols) == lit_record(pool.first(), symbols) + (
        spec_encode_constants(pool.drop_first().drop_last(), symbols) + lit_record(
            pool.last(),
            symbols,
        )));
        assert(lit_record(pool.first(), symbols) + (spec_encode_constants(
            pool.drop_last().drop_first(),
            symbols,
        ) + lit_record(pool.last(), symbols)) =~= (lit_record(pool.drop_last().first(), symbols)
            + spec_encode_constants(pool.drop_last().drop_first(), symbols)) + lit_record(
            pool.last(),
            symbols,
        ));
    }
}

/// The values a blob decodes to, reading from offset `i`.  A string record
/// is carried as an inert `Uninit` slot: no opcode consumes strings, and an
/// arithmetic use of one is then a tag mismatch, as it should be.
pub open spec fn spec_parse_constants(s: Seq<u8>, i: int) -> Result<Seq<Data>, LoadError>
    decreases s.len() - i,
{
    if i >= s.len() {
        Ok(Seq::<Data>::empty())
    } else {
        let tag = s[i];
        if tag == 0 {
            if i + 9 <= s.len() {
                match spec_parse_constants(s, i + 9) {
                    Ok(rest) => Ok(seq![Data::I64(le64_at(s, i + 1) as u64 as i64)] + rest),
                    Err(e) => Err(e),
                }
            } else {
                Err(LoadError::Truncated)
            }
        } else if tag == 1 {
            if i + 9 <= s.len() {
                match spec_parse_constants(s, i + 9) {
                    Ok(rest) => Ok(seq![Data::F64(le64_at(s, i + 1) as u64)] + rest),
                    Err(e) => Err(e),
                }
            } else {
                Err(LoadError::Truncated)
            }
        } else if tag == 2 {
            if i + 9 <= s.len() {
                let len = le64_at(s, i + 1);
                if i + 9 + len <= s.len() {
                    match spec_parse_constants(s, i + 9 + len) {
                        Ok(rest) => Ok(seq![Data::Uninit] + rest),
                        Err(e) => Err(e),
                    }
                } else {
                    Err(LoadError::Truncated)
                }
            } else {
                Err(LoadError::Truncated)
            }
        } else if tag == 3 {
            match spec_parse_constants(s, i + 1) {
                Ok(rest) => Ok(seq![Data::Bool(true)] + rest),
                Err(e) => Err(e),
            }
        } else if tag == 4 {
            match spec_parse_constants(s, i + 1) {
                Ok(rest) => Ok(seq![Data::Bool(false)] + rest),
                Err(e) => Err(e),
            }
        } else {
            Err(LoadError::UnknownTag(tag))
        }
    }
}

/// Decode a constant blob into the machine's constant array.
pub fn parse_constants(bytes: &Vec<u8>) -> (r: Result<Vec<Data>, LoadError>)
    ensures
        match r {
            Ok(v) => spec_parse_constants(bytes@, 0) == Ok::<Seq<Data>, LoadError>(v@),
            Err(e) => spec_parse_constants(bytes@, 0) == Err::<Seq<Data>, LoadError>(e),
        },
{
    let mut vec: Vec<Data> = Vec::new();
    let mut i: usize = 0;
    let n = bytes.len();
    while i < n
        invariant
            n == bytes@.len(),
            i <= n,
            spec_parse_constants(bytes@, 0) == (match spec_parse_constants(bytes@, i as int) {
                Ok(rest) => Ok::<Seq<Data>, LoadError>(vec@ + rest),
                Err(e) => Err::<Seq<Data>, LoadError>(e),
            }),
        decreases n - i,
    {
        let ghost pre = vec@;
        let ghost i0 = i as int;
        let tag = bytes[i];
        let val: Data;
        if tag == 0 {
            if n - i < 9 {
                return Err(LoadError::Truncated);
            }
            let x = crate::bytes::read_u64_le(bytes, i + 1);
            val = Data::I64(x as i64);
            i = i + 9;
        } else if tag == 1 {
            if n - i < 9 {
                return Err(LoadError::Truncated);
            }
            let x = crate::bytes::read_u64_le(bytes, i + 1);
            val = Data::F64(x);
            i = i + 9;
        } else if tag == 2 {
            if n - i < 9 {
                return Err(LoadError::Truncated);
            }
            let len = crate::bytes::read_u64_le(bytes, i + 1);
            if len > (n - (i + 9)) as u64 {
                return Err(LoadError::Truncated);
            }
            val = Data::Uninit;
            i = i + 9 + len as usize;
        } else if tag == 3 {
            val = Data::Bool(true);
            i = i + 1;
        } else if tag == 4 {
            val = Data::Bool(false);
            i = i + 1;
        } else {
            return Err(LoadError::UnknownTag(tag));
        }
        vec.push(val);
        proof {
            assert(vec@ =~= pre.push(val));
            assert(spec_parse_constants(bytes@, i0) == (
            match spec_parse_constants(bytes@, i as int) {
                Ok(rest) => Ok::<Seq<Data>, LoadError>(seq![val] + rest),
                Err(e) => Err::<Seq<Data>, LoadError>(e),
            }));
            match spec_parse_constants(bytes@, i as int) {
                Ok(rest) => {
                    assert(pre + (seq![val] + rest) =~= vec@ + rest);
                },
                Err(_) => {},
            }
        }
    }
    assert(spec_parse_constants(bytes@, i as int) == Ok::<Seq<Data>, LoadError>(
        Seq::<Data>::empty(),
    ));
    assert(vec@ + Seq::<Data>::empty() =~= vec@);
    Ok(vec)
}

/// The machine value a source literal denotes.  No opcode consumes a
/// string, so a string constant loads as an inert slot.
pub open spec fn lit_value(l: Literal) -> Data {
    match l {
        Literal::Integer(v) => Data::I64(v),
        Literal::Float(bits) => Data::F64(bits),
        Literal::Bool(b) => Data::Bool(b),
        Literal::Str(_) => Data::Uninit,
        Literal::Empty => Data::Uninit,
    }
}

/// The values of a whole pool.
pub open spec fn lit_values(pool: Seq<Literal>) -> Seq<Data> {
    Seq::new(pool.len(), |j: int| lit_value(pool[j]))
}

/// A pool whose records a loader can walk: no `Empty` literal (those leave
/// no record and would shift every later index) and no string payload
/// beyond the length field's range.
pub open spec fn pool_encodable(pool: Seq<Literal>, symbols: Seq<Seq<char>>) -> bool {
    forall|j: int|
        0 <= j < pool.len() ==> {
            &&& !((#[trigger] pool[j]) is Empty)
            &&& (pool[j] matches Literal::Str(s) ==> s.0 < symbols.len() && vstd::utf8::encode_utf8(
                symbols[s.0 as int],
            ).len() <= u64::MAX)
        }
}

/// One record at `i` parses to its literal's value and hands the cursor to
/// the rest.
#[verifier::rlimit(100)]
#[verifier::spinoff_prover]
proof fn lemma_record_parses(l: Literal, symbols: Seq<Seq<char>>, s: Seq<u8>, i: int)
    requires
        !(l is Empty),
        (l matches Literal::Str(sy) ==> sy.0 < symbols.len() && vstd::utf8::encode_utf8(
            symbols[sy.0 as int],
        ).len() <= u64::MAX),
        0 <= i,
        i + lit_record(l, symbols).len() <= s.len(),
        forall|k: int|
            0 <= k < lit_record(l, symbols).len() ==> s[i + k] == lit_record(l, symbols)[k],
    ensures
        spec_parse_constants(s, i) == (match spec_parse_constants(
            s,
            i + lit_record(l, symbols).len(),
        ) {
            Ok(rest) => Ok::<Seq<Data>, LoadError>(seq![lit_value(l)] + rest),
            Err(e) => Err::<Seq<Data>, LoadError>(e),
        }),
{
    let rec = lit_record(l, symbols);
    assert(s[i] == rec[0]);
    match l {
        Literal::Integer(v) => {
            assert forall|k: int| 0 <= k < 8 implies #[trigger] s.subrange(i + 1, i + 9)[k] == u64_bytes(
                (v as u64),
            )[k] by {
                assert(s[i + 1 + k] == rec[1 + k]);
                assert(rec[1 + k] == u64_bytes((v as u64))[k]);
            }
            assert(s.subrange(i + 1, i + 9) =~= u64_bytes(v as u64));
            lemma_le64_roundtrip(s, i + 1, v as u64);
            assert((v as u64) as i64 == v) by (bit_vector);
        },
        Literal::Float(bits) => {
            assert forall|k: int| 0 <= k < 8 implies #[trigger] s.subrange(i + 1, i + 9)[k] == u64_bytes(
                bits,
            )[k] by {
                assert(s[i + 1 + k] == rec[1 + k]);
                assert(rec[1 + k] == u64_bytes(bits)[k]);
            }
            assert(s.subrange(i + 1, i + 9) =~= u64_bytes(bits));
            lemma_le64_roundtrip(s, i + 1, bits);
        },
        Literal::Str(sym) => {
            let payload = vstd::utf8::encode_utf8(symbols[sym.0 as int]);
            assert forall|k: int| 0 <= k < 8 implies #[trigger] s.subrange(i + 1, i + 9)[k] == u64_bytes(
                (payload.len() as u64),
            )[k] by {
                assert(s[i + 1 + k] == rec[1 + k]);
                assert(rec[1 + k] == u64_bytes((payload.len() as u64))[k]);
            }
            assert(s.subrange(i + 1, i + 9) =~= u64_bytes((payload.len() as u64)));
            lemma_le64_roundtrip(s, i + 1, payload.len() as u64);
            assert(le64_at(s, i + 1) == payload.len());
            assert(i + 9 + payload.len() == i + rec.len());
        },
        Literal::Bool(b) => {
            assert(rec[0] == (if b {
                3u8
            } else {
                4u8
            }));
        },
        Literal::Empty => {},
    }
}

#[verifier::rlimit(100)]
#[verifier::spinoff_prover]
proof fn lemma_roundtrip_gen(pool: Seq<Literal>, symbols: Seq<Seq<char>>, s: Seq<u8>, i: int)
    requires
        0 <= i <= s.len(),
        s.subrange(i, s.len() as int) == spec_encode_constants(pool, symbols),
        pool_encodable(pool, symbols),
    ensures
        spec_parse_constants(s, i) == Ok::<Seq<Data>, LoadError>(lit_values(pool)),
    decreases pool.len(),
{
    let tail = s.subrange(i, s.len() as int);
    if pool.len() == 0 {
        assert(tail.len() == 0);
        assert(lit_values(pool) =~= Seq::<Data>::empty());
    } else {
        let l = pool.first();
        let rec = lit_record(l, symbols);
        let rest = spec_encode_constants(pool.drop_first(), symbols);
        assert(tail == rec + rest);
        let rl = rec.len() as int;
        assert(i + rl <= s.len());
        assert(forall|k: int| 0 <= k < rl ==> s[i + k] == rec[k]) by {
            assert(forall|k: int| 0 <= k < rl ==> s[i + k] == tail[k] && tail[k] == rec[k]);
        }
        lemma_record_parses(l, symbols, s, i);
        assert forall|k: int| 0 <= k < s.len() - (i + rl) implies s.subrange(
            i + rl,
            s.len() as int,
        )[k] == rest[k] by {
            assert(s.subrange(i + rl, s.len() as int)[k] == s[i + rl + k]);
            assert(s[i + rl + k] == tail[rl + k]);
            assert(tail[rl + k] == rest[k]);
        }
        assert(s.subrange(i + rl, s.len() as int) =~= rest);
        lemma_roundtrip_gen(pool.drop_first(), symbols, s, i + rl);
        assert(seq![lit_value(l)] + lit_values(pool.drop_first()) =~= lit_values(pool));
    }
}

/// Round trip: loading the blob of an encodable pool reproduces, value for
/// value, exactly what each interned literal denotes.
pub proof fn lemma_constants_roundtrip(pool: Seq<Literal>, symbols: Seq<Seq<char>>)
    requires
        pool_encodable(pool, symbols),
    ensures
        spec_parse_constants(spec_encode_constants(pool, symbols), 0) == Ok::<
            Seq<Data>,
            LoadError,
        >(lit_values(pool)),
{
    let s = spec_encode_constants(pool, symbols);
    assert(s.subrange(0, s.len() as int) =~= s);
    lemma_roundtrip_gen(pool, symbols, s, 0);
}

} // verus!
