//! Little-endian byte encoding, shared by the assembler back end, the module
//! container, and the virtual machine's instruction decoder.

use vstd::prelude::*;

verus! {

/// The value of the two bytes at `i`, read little-endian.
pub open spec fn le16_at(s: Seq<u8>, i: int) -> int {
    s[i] + 0x100 * s[i + 1]
}

/// The value of the four bytes at `i`, read little-endian.
pub open spec fn le32_at(s: Seq<u8>, i: int) -> int {
    s[i] + 0x100 * s[i + 1] + 0x1_0000 * s[i + 2] + 0x100_0000 * s[i + 3]
}

/// The value of the eight bytes at `i`, read little-endian.
pub open spec fn le64_at(s: Seq<u8>, i: int) -> int {
    s[i] + 0x100 * s[i + 1] + 0x1_0000 * s[i + 2] + 0x100_0000 * s[i + 3]
        + 0x1_0000_0000 * s[i + 4] + 0x100_0000_0000 * s[i + 5]
        + 0x1_0000_0000_0000 * s[i + 6] + 0x100_0000_0000_0000 * s[i + 7]
}

/// The two little-endian bytes of a 16-bit value.
pub open spec fn u16_bytes(x: u16) -> Seq<u8> {
    seq![(x % 0x100) as u8, ((x / 0x100) % 0x100) as u8]
}

/// The four little-endian bytes of a 32-bit value.
pub open spec fn u32_bytes(x: u32) -> Seq<u8> {
    seq![
        (x % 0x100) as u8,
        ((x / 0x100) % 0x100) as u8,
        ((x / 0x1_0000) % 0x100) as u8,
        ((x / 0x100_0000) % 0x100) as u8,
    ]
}

/// The eight little-endian bytes of a 64-bit value.
pub open spec fn u64_bytes(x: u64) -> Seq<u8> {
    seq![
        (x % 0x100) as u8,
        ((x / 0x100) % 0x100) as u8,
        ((x / 0x1_0000) % 0x100) as u8,
        ((x / 0x100_0000) % 0x100) as u8,
        ((x / 0x1_0000_0000) % 0x100) as u8,
        ((x / 0x100_0000_0000) % 0x100) as u8,
        ((x / 0x1_0000_0000_0000) % 0x100) as u8,
        ((x / 0x100_0000_0000_0000) % 0x100) as u8,
    ]
}

/// Reading back the two bytes of a 16-bit value gives the value.
pub proof fn lemma_le16_roundtrip(s: Seq<u8>, i: int, x: u16)
    requires
        0 <= i,
        i + 2 <= s.len(),
        s.subrange(i, i + 2) =~= u16_bytes(x),
    ensures
        le16_at(s, i) == x,
{
    assert(s[i] == u16_bytes(x)[0]);
    assert(s[i + 1] == u16_bytes(x)[1]);
}

/// Reading back the four bytes of a 32-bit value gives the value.
pub proof fn lemma_le32_roundtrip(s: Seq<u8>, i: int, x: u32)
    requires
        0 <= i,
        i + 4 <= s.len(),
        s.subrange(i, i + 4) =~= u32_bytes(x),
    ensures
        le32_at(s, i) == x,
{
    assert(s[i] == u32_bytes(x)[0]);
    assert(s[i + 1] == u32_bytes(x)[1]);
    assert(s[i + 2] == u32_bytes(x)[2]);
    assert(s[i + 3] == u32_bytes(x)[3]);
}

/// The eight extracted bytes of a 64-bit value reassemble to the value.
pub proof fn lemma_u64_bytes_value(x: u64)
    ensures
        (x % 0x100) + 0x100 * ((x / 0x100) % 0x100) + 0x1_0000 * ((x / 0x1_0000) % 0x100)
            + 0x100_0000 * ((x / 0x100_0000) % 0x100)
            + 0x1_0000_0000 * ((x / 0x1_0000_0000) % 0x100)
            + 0x100_0000_0000 * ((x / 0x100_0000_0000) % 0x100)
            + 0x1_0000_0000_0000 * ((x / 0x1_0000_0000_0000) % 0x100)
            + 0x100_0000_0000_0000 * ((x / 0x100_0000_0000_0000) % 0x100) == x,
{
    assert((x % 0x100) as u64 == x - 0x100 * (x / 0x100) && ((x / 0x100) % 0x100) as u64 == x
        / 0x100 - 0x100 * (x / 0x1_0000) && ((x / 0x1_0000) % 0x100) as u64 == x / 0x1_0000 - 0x100
        * (x / 0x100_0000) && ((x / 0x100_0000) % 0x100) as u64 == x / 0x100_0000 - 0x100 * (x
        / 0x1_0000_0000) && ((x / 0x1_0000_0000) % 0x100) as u64 == x / 0x1_0000_0000 - 0x100 * (x
        / 0x100_0000_0000) && ((x / 0x100_0000_0000) % 0x100) as u64 == x / 0x100_0000_0000 - 0x100
        * (x / 0x1_0000_0000_0000) && ((x / 0x1_0000_0000_0000) % 0x100) as u64 == x
        / 0x1_0000_0000_0000 - 0x100 * (x / 0x100_0000_0000_0000) && ((x / 0x100_0000_0000_0000)
        % 0x100) as u64 == x / 0x100_0000_0000_0000) by (bit_vector);
}

/// Reading back the eight bytes of a 64-bit value gives the value.
#[verifier::rlimit(60)]
pub proof fn lemma_le64_roundtrip(s: Seq<u8>, i: int, x: u64)
    requires
        0 <= i,
        i + 8 <= s.len(),
        s.subrange(i, i + 8) =~= u64_bytes(x),
    ensures
        le64_at(s, i) == x,
{
    assert(s[i] == u64_bytes(x)[0]);
    assert(s[i + 1] == u64_bytes(x)[1]);
    assert(s[i + 2] == u64_bytes(x)[2]);
    assert(s[i + 3] == u64_bytes(x)[3]);
    assert(s[i + 4] == u64_bytes(x)[4]);
    assert(s[i + 5] == u64_bytes(x)[5]);
    assert(s[i + 6] == u64_bytes(x)[6]);
    assert(s[i + 7] == u64_bytes(x)[7]);
    lemma_u64_bytes_value(x);
}

/// Read the two bytes at `i` as a little-endian 16-bit value.
pub fn read_u16_le(code: &Vec<u8>, i: usize) -> (r: u16)
    requires
        i + 2 <= code.len(),
    ensures
        r == le16_at(code@, i as int),
{
    let b0 = code[i] as u16;
    let b1 = code[i + 1] as u16;
    b0 + b1 * 0x100
}

/// Read the four bytes at `i` as a little-endian 32-bit value.
pub fn read_u32_le(code: &Vec<u8>, i: usize) -> (r: u32)
    requires
        i + 4 <= code.len(),
    ensures
        r == le32_at(code@, i as int),
{
    let b0 = code[i] as u32;
    let b1 = code[i + 1] as u32;
    let b2 = code[i + 2] as u32;
    let b3 = code[i + 3] as u32;
    b0 + b1 * 0x100 + b2 * 0x1_0000 + b3 * 0x100_0000
}

/// Read the eight bytes at `i` as a little-endian 64-bit value.
pub fn read_u64_le(code: &Vec<u8>, i: usize) -> (r: u64)
    requires
        i + 8 <= code.len(),
    ensures
        r == le64_at(code@, i as int),
{
    let b0 = code[i] as u64;
    let b1 = code[i + 1] as u64;
    let b2 = code[i + 2] as u64;
    let b3 = code[i + 3] as u64;
    let b4 = code[i + 4] as u64;
    let b5 = code[i + 5] as u64;
    let b6 = code[i + 6] as u64;
    let b7 = code[i + 7] as u64;
    b0 + b1 * 0x100 + b2 * 0x1_0000 + b3 * 0x100_0000 + b4 * 0x1_0000_0000
        + b5 * 0x100_0000_0000 + b6 * 0x1_0000_0000_0000 + b7 * 0x100_0000_0000_0000
}

/// Things the assembler can append to a bytecode or constant buffer.
pub trait ToBytecode {
    /// The bytes this value contributes to the stream.
    spec fn bytecode_bytes(&self) -> Seq<u8>;

    /// Append this value's bytes to `vec`.
    fn to_bytes(&self, vec: &mut Vec<u8>)
        ensures
            final(vec)@ == old(vec)@ + self.bytecode_bytes(),
    ;
}

impl ToBytecode for u8 {
    open spec fn bytecode_bytes(&self) -> Seq<u8> {
        seq![*self]
    }

    fn to_bytes(&self, vec: &mut Vec<u8>) {
        vec.push(*self);
        assert(final(vec)@ =~= old(vec)@ + self.bytecode_bytes());
    }
}

impl ToBytecode for u16 {
    open spec fn bytecode_bytes(&self) -> Seq<u8> {
        u16_bytes(*self)
    }

    fn to_bytes(&self, vec: &mut Vec<u8>) {
        vec.push((*self % 0x100) as u8);
        vec.push(((*self / 0x100) % 0x100) as u8);
        assert(final(vec)@ =~= old(vec)@ + self.bytecode_bytes());
    }
}

impl ToBytecode for u32 {
    open spec fn bytecode_bytes(&self) -> Seq<u8> {
        u32_bytes(*self)
    }

    fn to_bytes(&self, vec: &mut Vec<u8>) {
        vec.push((*self % 0x100) as u8);
        vec.push(((*self / 0x100) % 0x100) as u8);
        vec.push(((*self / 0x1_0000) % 0x100) as u8);
        vec.push(((*self / 0x100_0000) % 0x100) as u8);
        assert(final(vec)@ =~= old(vec)@ + self.bytecode_bytes());
    }
}

impl ToBytecode for u64 {
    open spec fn bytecode_bytes(&self) -> Seq<u8> {
        u64_bytes(*self)
    }

    fn to_bytes(&self, vec: &mut Vec<u8>) {
        vec.push((*self % 0x100) as u8);
        vec.push(((*self / 0x100) % 0x100) as u8);
        vec.push(((*self / 0x1_0000) % 0x100) as u8);
        vec.push(((*self / 0x100_0000) % 0x100) as u8);
        vec.push(((*self / 0x1_0000_0000) % 0x100) as u8);
        vec.push(((*self / 0x100_0000_0000) % 0x100) as u8);
        vec.push(((*self / 0x1_0000_0000_0000) % 0x100) as u8);
        vec.push(((*self / 0x100_0000_0000_0000) % 0x100) as u8);
        assert(final(vec)@ =~= old(vec)@ + self.bytecode_bytes());
    }
}

impl ToBytecode for i8 {
    open spec fn bytecode_bytes(&self) -> Seq<u8> {
        seq![*self as u8]
    }

    fn to_bytes(&self, vec: &mut Vec<u8>) {
        vec.push(*self as u8);
        assert(final(vec)@ =~= old(vec)@ + self.bytecode_bytes());
    }
}

impl ToBytecode for i16 {
    open spec fn bytecode_bytes(&self) -> Seq<u8> {
        u16_bytes(*self as u16)
    }

    fn to_bytes(&self, vec: &mut Vec<u8>) {
        let x = *self as u16;
        x.to_bytes(vec);
    }
}

impl ToBytecode for i32 {
    open spec fn bytecode_bytes(&self) -> Seq<u8> {
        u32_bytes(*self as u32)
    }

    fn to_bytes(&self, vec: &mut Vec<u8>) {
        let x = *self as u32;
        x.to_bytes(vec);
    }
}

impl ToBytecode for i64 {
    open spec fn bytecode_bytes(&self) -> Seq<u8> {
        u64_bytes(*self as u64)
    }

    fn to_bytes(&self, vec: &mut Vec<u8>) {
        let x = *self as u64;
        x.to_bytes(vec);
    }
}

} // verus!
