//! Primitive numeric kinds, their byte widths and their little-endian bytes.

use vstd::prelude::*;

verus! {

/// A primitive numeric kind.
#[derive(Clone, Copy, Debug, PartialEq, Eq, Structural)]
pub enum ScalarType {
    U8,
    I8,
    U16,
    I16,
    F16,
    BF16,
    U32,
    I32,
    F32,
    U64,
    I64,
    F64,
}

impl ScalarType {
    /// The width of a value of this kind, in bytes.
    pub open spec fn spec_size(self) -> nat {
        match self {
            ScalarType::U8 | ScalarType::I8 => 1,
            ScalarType::U16 | ScalarType::I16 | ScalarType::F16 | ScalarType::BF16 => 2,
            ScalarType::U32 | ScalarType::I32 | ScalarType::F32 => 4,
            ScalarType::U64 | ScalarType::I64 | ScalarType::F64 => 8,
        }
    }

    pub fn size(&self) -> (r: usize)
        ensures
            r == self.spec_size(),
    {
        match self {
            ScalarType::U8 | ScalarType::I8 => 1,
            ScalarType::U16 | ScalarType::I16 | ScalarType::F16 | ScalarType::BF16 => 2,
            ScalarType::U32 | ScalarType::I32 | ScalarType::F32 => 4,
            ScalarType::U64 | ScalarType::I64 | ScalarType::F64 => 8,
        }
    }
}

/// A value tagged with its kind. The floating kinds hold their IEEE bit pattern.
#[derive(Clone, Copy, Debug, PartialEq, Eq, Structural)]
pub enum ScalarElem {
    U8(u8),
    I8(i8),
    U16(u16),
    I16(i16),
    F16(u16),
    BF16(u16),
    U32(u32),
    I32(i32),
    F32(u32),
    U64(u64),
    I64(i64),
    F64(u64),
}

/// The `width` low-order base-256 digits of `x`, least significant first.
pub open spec fn le_bytes(x: nat, width: nat) -> Seq<u8>
    decreases width,
{
    if width == 0 {
        Seq::empty()
    } else {
        seq![(x % 256) as u8] + le_bytes(x / 256, (width - 1) as nat)
    }
}

/// The number whose base-256 digits, least significant first, are `bytes`.
pub open spec fn le_value(bytes: Seq<u8>) -> nat
    decreases bytes.len(),
{
    if bytes.len() == 0 {
        0
    } else {
        bytes[0] as nat + 256 * le_value(bytes.skip(1))
    }
}

pub proof fn lemma_le_bytes_len(x: nat, width: nat)
    ensures
        le_bytes(x, width).len() == width,
    decreases width,
{
    if width > 0 {
        lemma_le_bytes_len(x / 256, (width - 1) as nat);
    }
}

/// `2^(8 * width)`.
pub open spec fn radix(width: nat) -> nat
    decreases width,
{
    if width == 0 {
        1
    } else {
        256 * radix((width - 1) as nat)
    }
}

/// Reading back the bytes of `x` gives `x` reduced to `width` bytes.
pub proof fn lemma_le_value_of_bytes(x: nat, width: nat)
    ensures
        le_value(le_bytes(x, width)) == x % radix(width),
    decreases width,
{
    if width == 0 {
    } else {
        let w = (width - 1) as nat;
        let b = le_bytes(x, width);
        lemma_le_bytes_len(x, width);
        assert(b.skip(1) =~= le_bytes(x / 256, w));
        lemma_le_value_of_bytes(x / 256, w);
        let r = radix(w);
        lemma_radix_positive(w);
        vstd::arithmetic::div_mod::lemma_mod_breakdown(x as int, 256, r as int);
    }
}

pub proof fn lemma_radix_positive(width: nat)
    ensures
        radix(width) > 0,
    decreases width,
{
    if width > 0 {
        lemma_radix_positive((width - 1) as nat);
    }
}

/// The bytes of a number and the number of a byte string are inverse on `width` bytes.
pub proof fn lemma_le_bytes_of_value(bytes: Seq<u8>)
    ensures
        le_bytes(le_value(bytes), bytes.len()) == bytes,
    decreases bytes.len(),
{
    if bytes.len() > 0 {
        let rest = bytes.skip(1);
        lemma_le_bytes_of_value(rest);
        let v = le_value(bytes);
        let b0 = bytes[0] as nat;
        let t = le_value(rest);
        assert((b0 + 256 * t) % 256 == b0 && (b0 + 256 * t) / 256 == t) by (nonlinear_arith)
            requires
                b0 < 256,
        ;
        assert(le_bytes(v, bytes.len()) =~= bytes);
    } else {
        assert(le_bytes(le_value(bytes), bytes.len()) =~= bytes);
    }
}

/// The little-endian bytes of `bits`, `width` of them.
pub fn bytes_of_bits(bits: u64, width: usize) -> (r: Vec<u8>)
    ensures
        r@ == le_bytes(bits as nat, width as nat),
{
    let mut r: Vec<u8> = Vec::new();
    let mut rest: u64 = bits;
    let mut i: usize = 0;
    while i < width
        invariant
            i <= width,
            r@.len() == i,
            r@ + le_bytes(rest as nat, (width - i) as nat) == le_bytes(bits as nat, width as nat),
        decreases width - i,
    {
        let ghost before = r@;
        let digit: u8 = (rest % 256) as u8;
        r.push(digit);
        proof {
            let tail = le_bytes((rest / 256) as nat, (width - i - 1) as nat);
            assert(le_bytes(rest as nat, (width - i) as nat) == seq![digit] + tail);
            assert(r@ + tail =~= before + (seq![digit] + tail));
        }
        rest = rest / 256;
        i = i + 1;
    }
    proof {
        assert(r@ + Seq::<u8>::empty() =~= r@);
    }
    r
}

impl ScalarElem {
    pub open spec fn spec_scalar_type(self) -> ScalarType {
        match self {
            ScalarElem::U8(_) => ScalarType::U8,
            ScalarElem::I8(_) => ScalarType::I8,
            ScalarElem::U16(_) => ScalarType::U16,
            ScalarElem::I16(_) => ScalarType::I16,
            ScalarElem::F16(_) => ScalarType::F16,
            ScalarElem::BF16(_) => ScalarType::BF16,
            ScalarElem::U32(_) => ScalarType::U32,
            ScalarElem::I32(_) => ScalarType::I32,
            ScalarElem::F32(_) => ScalarType::F32,
            ScalarElem::U64(_) => ScalarType::U64,
            ScalarElem::I64(_) => ScalarType::I64,
            ScalarElem::F64(_) => ScalarType::F64,
        }
    }

    /// The value as an unsigned number: a signed value by its two's complement.
    pub open spec fn bits(self) -> nat {
        match self {
            ScalarElem::U8(x) => x as nat,
            ScalarElem::I8(x) => (x as u8) as nat,
            ScalarElem::U16(x) => x as nat,
            ScalarElem::I16(x) => (x as u16) as nat,
            ScalarElem::F16(x) => x as nat,
            ScalarElem::BF16(x) => x as nat,
            ScalarElem::U32(x) => x as nat,
            ScalarElem::I32(x) => (x as u32) as nat,
            ScalarElem::F32(x) => x as nat,
            ScalarElem::U64(x) => x as nat,
            ScalarElem::I64(x) => (x as u64) as nat,
            ScalarElem::F64(x) => x as nat,
        }
    }

    /// The little-endian representation.
    pub open spec fn spec_bytes(self) -> Seq<u8> {
        le_bytes(self.bits(), self.spec_scalar_type().spec_size())
    }

    pub fn scalar_type(&self) -> (r: ScalarType)
        ensures
            r == self.spec_scalar_type(),
    {
        match self {
            ScalarElem::U8(_) => ScalarType::U8,
            ScalarElem::I8(_) => ScalarType::I8,
            ScalarElem::U16(_) => ScalarType::U16,
            ScalarElem::I16(_) => ScalarType::I16,
            ScalarElem::F16(_) => ScalarType::F16,
            ScalarElem::BF16(_) => ScalarType::BF16,
            ScalarElem::U32(_) => ScalarType::U32,
            ScalarElem::I32(_) => ScalarType::I32,
            ScalarElem::F32(_) => ScalarType::F32,
            ScalarElem::U64(_) => ScalarType::U64,
            ScalarElem::I64(_) => ScalarType::I64,
            ScalarElem::F64(_) => ScalarType::F64,
        }
    }

    pub fn to_bits(&self) -> (r: u64)
        ensures
            r == self.bits(),
    {
        match *self {
            ScalarElem::U8(x) => x as u64,
            ScalarElem::I8(x) => (#[verifier::truncate] (x as u8)) as u64,
            ScalarElem::U16(x) => x as u64,
            ScalarElem::I16(x) => (#[verifier::truncate] (x as u16)) as u64,
            ScalarElem::F16(x) => x as u64,
            ScalarElem::BF16(x) => x as u64,
            ScalarElem::U32(x) => x as u64,
            ScalarElem::I32(x) => (#[verifier::truncate] (x as u32)) as u64,
            ScalarElem::F32(x) => x as u64,
            ScalarElem::U64(x) => x,
            ScalarElem::I64(x) => #[verifier::truncate] (x as u64),
            ScalarElem::F64(x) => x,
        }
    }

    /// The little-endian bytes of the value, as many as its kind is wide.
    pub fn as_bytes(&self) -> (r: Vec<u8>)
        ensures
            r@ == self.spec_bytes(),
            r@.len() == self.spec_scalar_type().spec_size(),
    {
        proof {
            lemma_le_bytes_len(self.bits(), self.spec_scalar_type().spec_size());
        }
        bytes_of_bits(self.to_bits(), self.scalar_type().size())
    }
}

} // verus!
