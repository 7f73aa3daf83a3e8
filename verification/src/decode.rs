//! The binary format of a kernel artifact: little-endian, every list and
//! string with its length as a 64-bit number in front.

use vstd::prelude::*;
use vstd::slice::slice_subrange;
use vstd::utf8::{decode_utf8, encode_utf8, encode_utf8_decode_utf8, valid_utf8};
use crate::artifact::{
    KernelDesc, KernelDescView, PushDesc, PushDescView, SliceDesc, SliceDescView, SpecDesc,
    SpecDescView,
};
use crate::features::{Feature, Features, with_flag};
use crate::scalar::ScalarType;

verus! {

/// Whether `count` bytes can be read at `at`.
pub open spec fn has(bytes: Seq<u8>, at: int, count: int) -> bool {
    0 <= at && 0 <= count && at + count <= bytes.len()
}

/// The byte at `at`.
pub open spec fn read_u8(bytes: Seq<u8>, at: int) -> Option<(u8, int)> {
    if has(bytes, at, 1) {
        Some((bytes[at], at + 1))
    } else {
        None
    }
}

/// The truth value at `at`: one byte, zero or one.
pub open spec fn read_bool(bytes: Seq<u8>, at: int) -> Option<(bool, int)> {
    if has(bytes, at, 1) && bytes[at] <= 1 {
        Some((bytes[at] == 1, at + 1))
    } else {
        None
    }
}

/// The number that the four bytes at `at` make, least significant first.
pub open spec fn word_at(bytes: Seq<u8>, at: int) -> nat {
    (bytes[at] + 0x100 * bytes[at + 1] + 0x1_0000 * bytes[at + 2] + 0x100_0000 * bytes[at
        + 3]) as nat
}

/// The number that the eight bytes at `at` make, least significant first.
pub open spec fn long_at(bytes: Seq<u8>, at: int) -> nat {
    word_at(bytes, at) + 0x1_0000_0000 * word_at(bytes, at + 4)
}

/// The 32-bit number at `at`.
pub open spec fn read_u32(bytes: Seq<u8>, at: int) -> Option<(u32, int)> {
    if has(bytes, at, 4) {
        Some((word_at(bytes, at) as u32, at + 4))
    } else {
        None
    }
}

/// The 64-bit number at `at`.
pub open spec fn read_u64(bytes: Seq<u8>, at: int) -> Option<(u64, int)> {
    if has(bytes, at, 8) {
        Some((long_at(bytes, at) as u64, at + 8))
    } else {
        None
    }
}

/// The length or index at `at`: a 64-bit number that a `usize` can hold.
pub open spec fn read_usize(bytes: Seq<u8>, at: int) -> Option<(usize, int)> {
    if has(bytes, at, 8) && long_at(bytes, at) <= usize::MAX {
        Some((long_at(bytes, at) as usize, at + 8))
    } else {
        None
    }
}

pub proof fn lemma_word_bound(bytes: Seq<u8>, at: int)
    requires
        has(bytes, at, 4),
    ensures
        word_at(bytes, at) <= u32::MAX,
{
}

pub proof fn lemma_long_bound(bytes: Seq<u8>, at: int)
    requires
        has(bytes, at, 8),
    ensures
        long_at(bytes, at) <= u64::MAX,
{
    lemma_word_bound(bytes, at);
    lemma_word_bound(bytes, at + 4);
}

pub fn take_u8(bytes: &[u8], at: usize) -> (r: Option<(u8, usize)>)
    requires
        at <= bytes@.len(),
    ensures
        reads(r, read_u8(bytes@, at as int)),
        r matches Some((_, next)) ==> next <= bytes@.len(),
{
    if bytes.len() - at < 1 {
        return None;
    }
    Some((bytes[at], at + 1))
}

/// Whether what was read, with the position as a machine number, is what
/// the format gives.
pub open spec fn reads<T>(got: Option<(T, usize)>, wanted: Option<(T, int)>) -> bool {
    match got {
        Some((value, next)) => wanted == Some((value, next as int)),
        None => wanted is None,
    }
}

pub fn take_bool(bytes: &[u8], at: usize) -> (r: Option<(bool, usize)>)
    requires
        at <= bytes@.len(),
    ensures
        reads(r, read_bool(bytes@, at as int)),
        r matches Some((_, next)) ==> next <= bytes@.len(),
{
    if bytes.len() - at < 1 {
        return None;
    }
    let b = bytes[at];
    if b > 1 {
        return None;
    }
    Some((b == 1, at + 1))
}

pub fn take_u32(bytes: &[u8], at: usize) -> (r: Option<(u32, usize)>)
    requires
        at <= bytes@.len(),
    ensures
        reads(r, read_u32(bytes@, at as int)),
        r matches Some((_, next)) ==> next <= bytes@.len(),
{
    if bytes.len() - at < 4 {
        return None;
    }
    let value: u32 = bytes[at] as u32 + 0x100 * (bytes[at + 1] as u32) + 0x1_0000 * (bytes[at
        + 2] as u32) + 0x100_0000 * (bytes[at + 3] as u32);
    Some((value, at + 4))
}

pub fn take_u64(bytes: &[u8], at: usize) -> (r: Option<(u64, usize)>)
    requires
        at <= bytes@.len(),
    ensures
        reads(r, read_u64(bytes@, at as int)),
        r matches Some((_, next)) ==> next <= bytes@.len(),
{
    if bytes.len() - at < 8 {
        return None;
    }
    let low: u64 = bytes[at] as u64 + 0x100 * (bytes[at + 1] as u64) + 0x1_0000 * (bytes[at
        + 2] as u64) + 0x100_0000 * (bytes[at + 3] as u64);
    let high: u64 = bytes[at + 4] as u64 + 0x100 * (bytes[at + 5] as u64) + 0x1_0000 * (bytes[at
        + 6] as u64) + 0x100_0000 * (bytes[at + 7] as u64);
    Some((low + 0x1_0000_0000 * high, at + 8))
}

pub fn take_usize(bytes: &[u8], at: usize) -> (r: Option<(usize, usize)>)
    requires
        at <= bytes@.len(),
    ensures
        reads(r, read_usize(bytes@, at as int)),
        r matches Some((_, next)) ==> next <= bytes@.len(),
{
    match take_u64(bytes, at) {
        Some((value, next)) => {
            proof {
                lemma_long_bound(bytes@, at as int);
            }
            if value > usize::MAX as u64 {
                None
            } else {
                Some((value as usize, next))
            }
        },
        None => None,
    }
}

/// `std::str::Utf8Error`, why bytes are not a string.
#[verifier::external_type_specification]
#[verifier::external_body]
pub struct ExUtf8Error(std::str::Utf8Error);

/// `std::str::from_utf8` succeeds exactly on valid UTF-8, and the string
/// slice it gives is made of the bytes it was given.
pub assume_specification<'a>[ std::str::from_utf8 ](v: &'a [u8]) -> (r: Result<
    &'a str,
    std::str::Utf8Error,
>)
    ensures
        r is Ok <==> valid_utf8(v@),
        r matches Ok(s) ==> encode_utf8(s@) == v@,
;

/// The string at `at`: its length in bytes, then as many bytes of UTF-8.
pub open spec fn read_string(bytes: Seq<u8>, at: int) -> Option<(Seq<char>, int)> {
    match read_usize(bytes, at) {
        Some((len, start)) => if has(bytes, start, len as int) && valid_utf8(
            bytes.subrange(start, start + len),
        ) {
            Some((decode_utf8(bytes.subrange(start, start + len)), start + len))
        } else {
            None
        },
        None => None,
    }
}

pub fn take_string(bytes: &[u8], at: usize) -> (r: Option<(String, usize)>)
    requires
        at <= bytes@.len(),
    ensures
        match r {
            Some((value, next)) => read_string(bytes@, at as int) == Some((value@, next as int))
                && next <= bytes@.len(),
            None => read_string(bytes@, at as int) is None,
        },
{
    let (len, start) = match take_usize(bytes, at) {
        Some(x) => x,
        None => {
            return None;
        },
    };
    if bytes.len() - start < len {
        return None;
    }
    let part = slice_subrange(bytes, start, start + len);
    match std::str::from_utf8(part) {
        Ok(s) => {
            proof {
                encode_utf8_decode_utf8(s@);
            }
            Some((s.to_owned(), start + len))
        },
        Err(_) => None,
    }
}

/// The `n` 32-bit numbers from `at` on.
pub open spec fn words_at(bytes: Seq<u8>, at: int, n: nat) -> Seq<u32> {
    Seq::new(n, |i: int| word_at(bytes, at + 4 * i) as u32)
}

/// The list of 32-bit numbers at `at`: its length, then the numbers.
pub open spec fn read_words(bytes: Seq<u8>, at: int) -> Option<(Seq<u32>, int)> {
    match read_usize(bytes, at) {
        Some((len, start)) => if has(bytes, start, 4 * len) {
            Some((words_at(bytes, start, len as nat), start + 4 * len))
        } else {
            None
        },
        None => None,
    }
}

pub fn take_words(bytes: &[u8], at: usize) -> (r: Option<(Vec<u32>, usize)>)
    requires
        at <= bytes@.len(),
    ensures
        match r {
            Some((value, next)) => read_words(bytes@, at as int) == Some((value@, next as int))
                && next <= bytes@.len(),
            None => read_words(bytes@, at as int) is None,
        },
{
    let (len, start) = match take_usize(bytes, at) {
        Some(x) => x,
        None => {
            return None;
        },
    };
    if (bytes.len() - start) / 4 < len {
        return None;
    }
    let mut words: Vec<u32> = Vec::new();
    let mut i: usize = 0;
    let mut next: usize = start;
    while i < len
        invariant
            i <= len,
            start <= bytes@.len(),
            start + 4 * len <= bytes@.len(),
            next == start + 4 * i,
            words@ == words_at(bytes@, start as int, i as nat),
        decreases len - i,
    {
        match take_u32(bytes, next) {
            Some((word, after)) => {
                words.push(word);
                next = after;
            },
            None => {
                assert(false);
            },
        }
        i = i + 1;
        assert(words@ =~= words_at(bytes@, start as int, i as nat));
    }
    Some((words, next))
}

/// The numeric kind with the given number.
pub open spec fn scalar_type_of(index: u32) -> Option<ScalarType> {
    if index == 0 {
        Some(ScalarType::U8)
    } else if index == 1 {
        Some(ScalarType::I8)
    } else if index == 2 {
        Some(ScalarType::U16)
    } else if index == 3 {
        Some(ScalarType::I16)
    } else if index == 4 {
        Some(ScalarType::F16)
    } else if index == 5 {
        Some(ScalarType::BF16)
    } else if index == 6 {
        Some(ScalarType::U32)
    } else if index == 7 {
        Some(ScalarType::I32)
    } else if index == 8 {
        Some(ScalarType::F32)
    } else if index == 9 {
        Some(ScalarType::U64)
    } else if index == 10 {
        Some(ScalarType::I64)
    } else if index == 11 {
        Some(ScalarType::F64)
    } else {
        None
    }
}

/// The numeric kind at `at`: its number, in 32 bits.
pub open spec fn read_scalar_type(bytes: Seq<u8>, at: int) -> Option<(ScalarType, int)> {
    match read_u32(bytes, at) {
        Some((index, next)) => match scalar_type_of(index) {
            Some(scalar_type) => Some((scalar_type, next)),
            None => None,
        },
        None => None,
    }
}

pub fn take_scalar_type(bytes: &[u8], at: usize) -> (r: Option<(ScalarType, usize)>)
    requires
        at <= bytes@.len(),
    ensures
        reads(r, read_scalar_type(bytes@, at as int)),
        r matches Some((_, next)) ==> next <= bytes@.len(),
{
    let (index, next) = match take_u32(bytes, at) {
        Some(x) => x,
        None => {
            return None;
        },
    };
    let scalar_type = if index == 0 {
        ScalarType::U8
    } else if index == 1 {
        ScalarType::I8
    } else if index == 2 {
        ScalarType::U16
    } else if index == 3 {
        ScalarType::I16
    } else if index == 4 {
        ScalarType::F16
    } else if index == 5 {
        ScalarType::BF16
    } else if index == 6 {
        ScalarType::U32
    } else if index == 7 {
        ScalarType::I32
    } else if index == 8 {
        ScalarType::F32
    } else if index == 9 {
        ScalarType::U64
    } else if index == 10 {
        ScalarType::I64
    } else if index == 11 {
        ScalarType::F64
    } else {
        return None;
    };
    Some((scalar_type, next))
}

/// The capability set with the five flags as given.
pub open spec fn features_of(
    int8: bool,
    int16: bool,
    int64: bool,
    float16: bool,
    float64: bool,
) -> Set<Feature> {
    with_flag(
        with_flag(
            with_flag(
                with_flag(
                    with_flag(Set::empty(), Feature::ShaderInt8, int8),
                    Feature::ShaderInt16,
                    int16,
                ),
                Feature::ShaderInt64,
                int64,
            ),
            Feature::ShaderFloat16,
            float16,
        ),
        Feature::ShaderFloat64,
        float64,
    )
}

/// The capability set at `at`: five truth values.
pub open spec fn read_features(bytes: Seq<u8>, at: int) -> Option<(Set<Feature>, int)> {
    if has(bytes, at, 5) && bytes[at] <= 1 && bytes[at + 1] <= 1 && bytes[at + 2] <= 1 && bytes[at
        + 3] <= 1 && bytes[at + 4] <= 1 {
        Some(
            (
                features_of(
                    bytes[at] == 1,
                    bytes[at + 1] == 1,
                    bytes[at + 2] == 1,
                    bytes[at + 3] == 1,
                    bytes[at + 4] == 1,
                ),
                at + 5,
            ),
        )
    } else {
        None
    }
}

pub fn take_features(bytes: &[u8], at: usize) -> (r: Option<(Features, usize)>)
    requires
        at <= bytes@.len(),
    ensures
        match r {
            Some((value, next)) => read_features(bytes@, at as int) == Some((value@, next as int))
                && next <= bytes@.len(),
            None => read_features(bytes@, at as int) is None,
        },
{
    if bytes.len() - at < 5 {
        return None;
    }
    if bytes[at] > 1 || bytes[at + 1] > 1 || bytes[at + 2] > 1 || bytes[at + 3] > 1 || bytes[at
        + 4] > 1 {
        return None;
    }
    let features = Features::empty().with_shader_int8(bytes[at] == 1).with_shader_int16(
        bytes[at + 1] == 1,
    ).with_shader_int64(bytes[at + 2] == 1).with_shader_float16(
        bytes[at + 3] == 1,
    ).with_shader_float64(bytes[at + 4] == 1);
    Some((features, at + 5))
}

/// The optional index at `at`: a byte that is zero, or one and then the index.
pub open spec fn read_option(bytes: Seq<u8>, at: int) -> Option<(Option<usize>, int)> {
    match read_u8(bytes, at) {
        Some((tag, next)) => if tag == 0 {
            Some((None, next))
        } else if tag == 1 {
            match read_usize(bytes, next) {
                Some((value, after)) => Some((Some(value), after)),
                None => None,
            }
        } else {
            None
        },
        None => None,
    }
}

pub fn take_option(bytes: &[u8], at: usize) -> (r: Option<(Option<usize>, usize)>)
    requires
        at <= bytes@.len(),
    ensures
        reads(r, read_option(bytes@, at as int)),
        r matches Some((_, next)) ==> next <= bytes@.len(),
{
    let (tag, next) = match take_u8(bytes, at) {
        Some(x) => x,
        None => {
            return None;
        },
    };
    if tag == 0 {
        Some((None, next))
    } else if tag == 1 {
        match take_usize(bytes, next) {
            Some((value, after)) => Some((Some(value), after)),
            None => None,
        }
    } else {
        None
    }
}

/// The specialization constant at `at`: name, kind, optional dimension.
pub open spec fn read_spec_desc(bytes: Seq<u8>, at: int) -> Option<(SpecDescView, int)> {
    match read_string(bytes, at) {
        Some((name, a)) => match read_scalar_type(bytes, a) {
            Some((scalar_type, b)) => match read_option(bytes, b) {
                Some((thread_dim, c)) => Some((SpecDescView { name, scalar_type, thread_dim }, c)),
                None => None,
            },
            None => None,
        },
        None => None,
    }
}

/// The binding at `at`: name, kind, whether written, whether an item slice.
pub open spec fn read_slice_desc(bytes: Seq<u8>, at: int) -> Option<(SliceDescView, int)> {
    match read_string(bytes, at) {
        Some((name, a)) => match read_scalar_type(bytes, a) {
            Some((scalar_type, b)) => match read_bool(bytes, b) {
                Some((mutable, c)) => match read_bool(bytes, c) {
                    Some((item, d)) => Some(
                        (SliceDescView { name, scalar_type, mutable, item }, d),
                    ),
                    None => None,
                },
                None => None,
            },
            None => None,
        },
        None => None,
    }
}

/// The push constant at `at`: name and kind.
pub open spec fn read_push_desc(bytes: Seq<u8>, at: int) -> Option<(PushDescView, int)> {
    match read_string(bytes, at) {
        Some((name, a)) => match read_scalar_type(bytes, a) {
            Some((scalar_type, b)) => Some((PushDescView { name, scalar_type }, b)),
            None => None,
        },
        None => None,
    }
}

/// The `n` specialization constants from `at` on.
pub open spec fn read_spec_descs_n(bytes: Seq<u8>, at: int, n: nat) -> Option<
    (Seq<SpecDescView>, int),
>
    decreases n,
{
    if n == 0 {
        Some((Seq::empty(), at))
    } else {
        match read_spec_descs_n(bytes, at, (n - 1) as nat) {
            Some((before, a)) => match read_spec_desc(bytes, a) {
                Some((desc, b)) => Some((before.push(desc), b)),
                None => None,
            },
            None => None,
        }
    }
}

/// The `n` bindings from `at` on.
pub open spec fn read_slice_descs_n(bytes: Seq<u8>, at: int, n: nat) -> Option<
    (Seq<SliceDescView>, int),
>
    decreases n,
{
    if n == 0 {
        Some((Seq::empty(), at))
    } else {
        match read_slice_descs_n(bytes, at, (n - 1) as nat) {
            Some((before, a)) => match read_slice_desc(bytes, a) {
                Some((desc, b)) => Some((before.push(desc), b)),
                None => None,
            },
            None => None,
        }
    }
}

/// The `n` push constants from `at` on.
pub open spec fn read_push_descs_n(bytes: Seq<u8>, at: int, n: nat) -> Option<
    (Seq<PushDescView>, int),
>
    decreases n,
{
    if n == 0 {
        Some((Seq::empty(), at))
    } else {
        match read_push_descs_n(bytes, at, (n - 1) as nat) {
            Some((before, a)) => match read_push_desc(bytes, a) {
                Some((desc, b)) => Some((before.push(desc), b)),
                None => None,
            },
            None => None,
        }
    }
}

/// The list of specialization constants at `at`: its length, then its items.
pub open spec fn read_spec_descs(bytes: Seq<u8>, at: int) -> Option<(Seq<SpecDescView>, int)> {
    match read_usize(bytes, at) {
        Some((len, start)) => read_spec_descs_n(bytes, start, len as nat),
        None => None,
    }
}

/// The list of bindings at `at`: its length, then its items.
pub open spec fn read_slice_descs(bytes: Seq<u8>, at: int) -> Option<(Seq<SliceDescView>, int)> {
    match read_usize(bytes, at) {
        Some((len, start)) => read_slice_descs_n(bytes, start, len as nat),
        None => None,
    }
}

/// The list of push constants at `at`: its length, then its items.
pub open spec fn read_push_descs(bytes: Seq<u8>, at: int) -> Option<(Seq<PushDescView>, int)> {
    match read_usize(bytes, at) {
        Some((len, start)) => read_push_descs_n(bytes, start, len as nat),
        None => None,
    }
}

/// Once an item cannot be read, no longer list can.
pub proof fn lemma_spec_descs_stop(bytes: Seq<u8>, at: int, m: nat, n: nat)
    requires
        m <= n,
        read_spec_descs_n(bytes, at, m) is None,
    ensures
        read_spec_descs_n(bytes, at, n) is None,
    decreases n - m,
{
    if m < n {
        lemma_spec_descs_stop(bytes, at, m, (n - 1) as nat);
    }
}

/// Once an item cannot be read, no longer list can.
pub proof fn lemma_slice_descs_stop(bytes: Seq<u8>, at: int, m: nat, n: nat)
    requires
        m <= n,
        read_slice_descs_n(bytes, at, m) is None,
    ensures
        read_slice_descs_n(bytes, at, n) is None,
    decreases n - m,
{
    if m < n {
        lemma_slice_descs_stop(bytes, at, m, (n - 1) as nat);
    }
}

/// Once an item cannot be read, no longer list can.
pub proof fn lemma_push_descs_stop(bytes: Seq<u8>, at: int, m: nat, n: nat)
    requires
        m <= n,
        read_push_descs_n(bytes, at, m) is None,
    ensures
        read_push_descs_n(bytes, at, n) is None,
    decreases n - m,
{
    if m < n {
        lemma_push_descs_stop(bytes, at, m, (n - 1) as nat);
    }
}

pub fn take_spec_desc(bytes: &[u8], at: usize) -> (r: Option<(SpecDesc, usize)>)
    requires
        at <= bytes@.len(),
    ensures
        match r {
            Some((value, next)) => read_spec_desc(bytes@, at as int) == Some((value@, next as int))
                && next <= bytes@.len(),
            None => read_spec_desc(bytes@, at as int) is None,
        },
{
    let (name, a) = match take_string(bytes, at) {
        Some(x) => x,
        None => {
            return None;
        },
    };
    let (scalar_type, b) = match take_scalar_type(bytes, a) {
        Some(x) => x,
        None => {
            return None;
        },
    };
    let (thread_dim, c) = match take_option(bytes, b) {
        Some(x) => x,
        None => {
            return None;
        },
    };
    Some((SpecDesc { name, scalar_type, thread_dim }, c))
}

pub fn take_slice_desc(bytes: &[u8], at: usize) -> (r: Option<(SliceDesc, usize)>)
    requires
        at <= bytes@.len(),
    ensures
        match r {
            Some((value, next)) => read_slice_desc(bytes@, at as int) == Some(
                (value@, next as int),
            ) && next <= bytes@.len(),
            None => read_slice_desc(bytes@, at as int) is None,
        },
{
    let (name, a) = match take_string(bytes, at) {
        Some(x) => x,
        None => {
            return None;
        },
    };
    let (scalar_type, b) = match take_scalar_type(bytes, a) {
        Some(x) => x,
        None => {
            return None;
        },
    };
    let (mutable, c) = match take_bool(bytes, b) {
        Some(x) => x,
        None => {
            return None;
        },
    };
    let (item, d) = match take_bool(bytes, c) {
        Some(x) => x,
        None => {
            return None;
        },
    };
    Some((SliceDesc { name, scalar_type, mutable, item }, d))
}

pub fn take_push_desc(bytes: &[u8], at: usize) -> (r: Option<(PushDesc, usize)>)
    requires
        at <= bytes@.len(),
    ensures
        match r {
            Some((value, next)) => read_push_desc(bytes@, at as int) == Some((value@, next as int))
                && next <= bytes@.len(),
            None => read_push_desc(bytes@, at as int) is None,
        },
{
    let (name, a) = match take_string(bytes, at) {
        Some(x) => x,
        None => {
            return None;
        },
    };
    let (scalar_type, b) = match take_scalar_type(bytes, a) {
        Some(x) => x,
        None => {
            return None;
        },
    };
    Some((PushDesc { name, scalar_type }, b))
}

pub fn take_spec_descs(bytes: &[u8], at: usize) -> (r: Option<(Vec<SpecDesc>, usize)>)
    requires
        at <= bytes@.len(),
    ensures
        match r {
            Some((value, next)) => read_spec_descs(bytes@, at as int) == Some(
                (value@.map_values(|d: SpecDesc| d@), next as int),
            ) && next <= bytes@.len(),
            None => read_spec_descs(bytes@, at as int) is None,
        },
{
    let (len, start) = match take_usize(bytes, at) {
        Some(x) => x,
        None => {
            return None;
        },
    };
    let mut items: Vec<SpecDesc> = Vec::new();
    let mut next: usize = start;
    let mut i: usize = 0;
    while i < len
        invariant
            i <= len,
            next <= bytes@.len(),
            read_usize(bytes@, at as int) == Some((len, start as int)),
            read_spec_descs_n(bytes@, start as int, i as nat) == Some(
                (items@.map_values(|d: SpecDesc| d@), next as int),
            ),
        decreases len - i,
    {
        let ghost before = items@.map_values(|d: SpecDesc| d@);
        match take_spec_desc(bytes, next) {
            Some((desc, after)) => {
                items.push(desc);
                next = after;
                assert(items@.map_values(|d: SpecDesc| d@) =~= before.push(desc@));
            },
            None => {
                proof {
                    assert(read_spec_descs_n(bytes@, start as int, (i + 1) as nat) is None);
                    lemma_spec_descs_stop(bytes@, start as int, (i + 1) as nat, len as nat);
                }
                return None;
            },
        }
        i = i + 1;
    }
    Some((items, next))
}

pub fn take_slice_descs(bytes: &[u8], at: usize) -> (r: Option<(Vec<SliceDesc>, usize)>)
    requires
        at <= bytes@.len(),
    ensures
        match r {
            Some((value, next)) => read_slice_descs(bytes@, at as int) == Some(
                (value@.map_values(|d: SliceDesc| d@), next as int),
            ) && next <= bytes@.len(),
            None => read_slice_descs(bytes@, at as int) is None,
        },
{
    let (len, start) = match take_usize(bytes, at) {
        Some(x) => x,
        None => {
            return None;
        },
    };
    let mut items: Vec<SliceDesc> = Vec::new();
    let mut next: usize = start;
    let mut i: usize = 0;
    while i < len
        invariant
            i <= len,
            next <= bytes@.len(),
            read_usize(bytes@, at as int) == Some((len, start as int)),
            read_slice_descs_n(bytes@, start as int, i as nat) == Some(
                (items@.map_values(|d: SliceDesc| d@), next as int),
            ),
        decreases len - i,
    {
        let ghost before = items@.map_values(|d: SliceDesc| d@);
        match take_slice_desc(bytes, next) {
            Some((desc, after)) => {
                items.push(desc);
                next = after;
                assert(items@.map_values(|d: SliceDesc| d@) =~= before.push(desc@));
            },
            None => {
                proof {
                    assert(read_slice_descs_n(bytes@, start as int, (i + 1) as nat) is None);
                    lemma_slice_descs_stop(bytes@, start as int, (i + 1) as nat, len as nat);
                }
                return None;
            },
        }
        i = i + 1;
    }
    Some((items, next))
}

pub fn take_push_descs(bytes: &[u8], at: usize) -> (r: Option<(Vec<PushDesc>, usize)>)
    requires
        at <= bytes@.len(),
    ensures
        match r {
            Some((value, next)) => read_push_descs(bytes@, at as int) == Some(
                (value@.map_values(|d: PushDesc| d@), next as int),
            ) && next <= bytes@.len(),
            None => read_push_descs(bytes@, at as int) is None,
        },
{
    let (len, start) = match take_usize(bytes, at) {
        Some(x) => x,
        None => {
            return None;
        },
    };
    let mut items: Vec<PushDesc> = Vec::new();
    let mut next: usize = start;
    let mut i: usize = 0;
    while i < len
        invariant
            i <= len,
            next <= bytes@.len(),
            read_usize(bytes@, at as int) == Some((len, start as int)),
            read_push_descs_n(bytes@, start as int, i as nat) == Some(
                (items@.map_values(|d: PushDesc| d@), next as int),
            ),
        decreases len - i,
    {
        let ghost before = items@.map_values(|d: PushDesc| d@);
        match take_push_desc(bytes, next) {
            Some((desc, after)) => {
                items.push(desc);
                next = after;
                assert(items@.map_values(|d: PushDesc| d@) =~= before.push(desc@));
            },
            None => {
                proof {
                    assert(read_push_descs_n(bytes@, start as int, (i + 1) as nat) is None);
                    lemma_push_descs_stop(bytes@, start as int, (i + 1) as nat, len as nat);
                }
                return None;
            },
        }
        i = i + 1;
    }
    Some((items, next))
}

/// The artifact that the bytes encode: name, bytecode, capabilities,
/// workgroup size of one to three dimensions, safety, then the three
/// schemas, and nothing after them.
pub open spec fn decode(bytes: Seq<u8>) -> Option<KernelDescView> {
    match read_string(bytes, 0) {
        Some((name, a)) => match read_words(bytes, a) {
            Some((spirv, b)) => match read_features(bytes, b) {
                Some((features, c)) => match read_words(bytes, c) {
                    Some((threads, d)) => match read_bool(bytes, d) {
                        Some((safe, e)) => match read_spec_descs(bytes, e) {
                            Some((spec_descs, f)) => match read_slice_descs(bytes, f) {
                                Some((slice_descs, g)) => match read_push_descs(bytes, g) {
                                    Some((push_descs, h)) => if h == bytes.len() && 1
                                        <= threads.len() <= 3 {
                                        Some(
                                            KernelDescView {
                                                name,
                                                spirv,
                                                features,
                                                threads,
                                                safe,
                                                spec_descs,
                                                slice_descs,
                                                push_descs,
                                            },
                                        )
                                    } else {
                                        None
                                    },
                                    None => None,
                                },
                                None => None,
                            },
                            None => None,
                        },
                        None => None,
                    },
                    None => None,
                },
                None => None,
            },
            None => None,
        },
        None => None,
    }
}

/// Reads an artifact from its bytes.
pub fn decode_desc(bytes: &[u8]) -> (r: Option<KernelDesc>)
    ensures
        match r {
            Some(desc) => decode(bytes@) == Some(desc@),
            None => decode(bytes@) is None,
        },
{
    let (name, a) = match take_string(bytes, 0) {
        Some(x) => x,
        None => {
            return None;
        },
    };
    let (spirv, b) = match take_words(bytes, a) {
        Some(x) => x,
        None => {
            return None;
        },
    };
    let (features, c) = match take_features(bytes, b) {
        Some(x) => x,
        None => {
            return None;
        },
    };
    let (threads, d) = match take_words(bytes, c) {
        Some(x) => x,
        None => {
            return None;
        },
    };
    let (safe, e) = match take_bool(bytes, d) {
        Some(x) => x,
        None => {
            return None;
        },
    };
    let (spec_descs, f) = match take_spec_descs(bytes, e) {
        Some(x) => x,
        None => {
            return None;
        },
    };
    let (slice_descs, g) = match take_slice_descs(bytes, f) {
        Some(x) => x,
        None => {
            return None;
        },
    };
    let (push_descs, h) = match take_push_descs(bytes, g) {
        Some(x) => x,
        None => {
            return None;
        },
    };
    if h != bytes.len() || threads.len() < 1 || threads.len() > 3 {
        return None;
    }
    Some(KernelDesc { name, spirv, features, threads, safe, spec_descs, slice_descs, push_descs })
}

} // verus!
