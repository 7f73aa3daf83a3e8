//! The bytes of an artifact, and that reading them gives the artifact back.

use vstd::prelude::*;
use vstd::utf8::{
    decode_utf8, decode_utf8_encode_utf8, encode_utf8, encode_utf8_decode_utf8,
    encode_utf8_valid_utf8,
};
use crate::artifact::{KernelDescView, PushDescView, SliceDescView, SpecDescView};
use crate::decode::{
    decode, features_of, has, long_at, read_bool, read_features, read_option, read_push_desc,
    read_push_descs, read_push_descs_n, read_scalar_type, read_slice_desc, read_slice_descs,
    read_slice_descs_n, read_spec_desc, read_spec_descs, read_spec_descs_n, read_string,
    read_u32, read_u64, read_usize, read_words, word_at, words_at,
};
use crate::features::Feature;
use crate::scalar::{ScalarType, le_bytes};

verus! {

/// The four bytes of a 32-bit number, least significant first.
pub open spec fn enc_u32(x: u32) -> Seq<u8> {
    seq![
        (x % 0x100) as u8,
        (x / 0x100 % 0x100) as u8,
        (x / 0x1_0000 % 0x100) as u8,
        (x / 0x100_0000) as u8,
    ]
}

/// The eight bytes of a 64-bit number, least significant first.
pub open spec fn enc_u64(x: u64) -> Seq<u8> {
    enc_u32((x % 0x1_0000_0000) as u32) + enc_u32((x / 0x1_0000_0000) as u32)
}

/// The bytes of a number in the format are its little-endian bytes.
pub proof fn lemma_enc_is_little_endian(x: u32, y: u64)
    ensures
        enc_u32(x) == le_bytes(x as nat, 4),
        enc_u64(y) == le_bytes(y as nat, 8),
{
    reveal_with_fuel(le_bytes, 9);
    assert(enc_u32(x) =~= le_bytes(x as nat, 4));
    let low = (y % 0x1_0000_0000) as u32;
    let high = (y / 0x1_0000_0000) as u32;
    assert(enc_u32(low) =~= le_bytes(low as nat, 4));
    assert(enc_u32(high) =~= le_bytes(high as nat, 4));
    assert(enc_u64(y) =~= le_bytes(y as nat, 8));
}

/// The byte of a truth value.
pub open spec fn enc_bool(b: bool) -> Seq<u8> {
    seq![if b {
        1u8
    } else {
        0u8
    }]
}

/// The bytes from `at` up to `end` are the sum of those up to `mid` and
/// those from `mid` on.
pub proof fn lemma_join(bytes: Seq<u8>, at: int, mid: int, end: int)
    requires
        0 <= at <= mid <= end <= bytes.len(),
    ensures
        bytes.subrange(at, end) == bytes.subrange(at, mid) + bytes.subrange(mid, end),
{
    assert(bytes.subrange(at, end) =~= bytes.subrange(at, mid) + bytes.subrange(mid, end));
}

/// Where the bytes at `at` are `a` and then `b`, those at `at` are `a` and
/// those after them are `b`.
pub proof fn lemma_split(bytes: Seq<u8>, at: int, a: Seq<u8>, b: Seq<u8>)
    requires
        0 <= at,
        at + a.len() + b.len() <= bytes.len(),
        bytes.subrange(at, at + a.len() + b.len()) == a + b,
    ensures
        bytes.subrange(at, at + a.len()) == a,
        bytes.subrange(at + a.len(), at + a.len() + b.len()) == b,
{
    let whole = bytes.subrange(at, at + a.len() + b.len());
    assert forall|i: int| 0 <= i < a.len() implies bytes[at + i] == a[i] by {
        assert(whole[i] == (a + b)[i]);
    }
    assert forall|i: int| 0 <= i < b.len() implies bytes[at + a.len() + i] == b[i] by {
        assert(whole[a.len() + i] == (a + b)[a.len() + i]);
    }
    assert(bytes.subrange(at, at + a.len()) =~= a);
    assert(bytes.subrange(at + a.len(), at + a.len() + b.len()) =~= b);
}

/// The digits of a number made of four digits are those four.
pub proof fn lemma_digits(a: int, b: int, c: int, d: int)
    requires
        0 <= a < 0x100,
        0 <= b < 0x100,
        0 <= c < 0x100,
        0 <= d < 0x100,
    ensures
        ({
            let w = a + 0x100 * b + 0x1_0000 * c + 0x100_0000 * d;
            &&& 0 <= w <= 0xffff_ffff
            &&& w % 0x100 == a
            &&& w / 0x100 % 0x100 == b
            &&& w / 0x1_0000 % 0x100 == c
            &&& w / 0x100_0000 == d
        }),
{
}

/// A number below 2^32 is made of its four digits.
pub proof fn lemma_number(x: int)
    requires
        0 <= x <= 0xffff_ffff,
    ensures
        x == x % 0x100 + 0x100 * (x / 0x100 % 0x100) + 0x1_0000 * (x / 0x1_0000 % 0x100)
            + 0x100_0000 * (x / 0x100_0000),
        0 <= x / 0x100_0000 < 0x100,
{
}

pub proof fn lemma_u32_sound(bytes: Seq<u8>, at: int)
    requires
        has(bytes, at, 4),
    ensures
        bytes.subrange(at, at + 4) == enc_u32(word_at(bytes, at) as u32),
{
    lemma_digits(
        bytes[at] as int,
        bytes[at + 1] as int,
        bytes[at + 2] as int,
        bytes[at + 3] as int,
    );
    let w = word_at(bytes, at) as u32;
    let e = enc_u32(w);
    let part = bytes.subrange(at, at + 4);
    assert(e[0] == bytes[at]);
    assert(e[1] == bytes[at + 1]);
    assert(e[2] == bytes[at + 2]);
    assert(e[3] == bytes[at + 3]);
    assert(part =~= e);
}

pub proof fn lemma_u32_complete(bytes: Seq<u8>, at: int, x: u32)
    requires
        has(bytes, at, 4),
        bytes.subrange(at, at + 4) == enc_u32(x),
    ensures
        read_u32(bytes, at) == Some((x, at + 4)),
{
    let part = bytes.subrange(at, at + 4);
    lemma_number(x as int);
    assert(part[0] == bytes[at] && part[1] == bytes[at + 1] && part[2] == bytes[at + 2]
        && part[3] == bytes[at + 3]);
    assert(bytes[at] == (x % 0x100) as u8);
    assert(bytes[at + 1] == (x / 0x100 % 0x100) as u8);
    assert(bytes[at + 2] == (x / 0x1_0000 % 0x100) as u8);
    assert(bytes[at + 3] == (x / 0x100_0000) as u8);
}

/// The halves of a number made of two 32-bit halves are those two.
pub proof fn lemma_halves(low: int, high: int)
    requires
        0 <= low <= 0xffff_ffff,
        0 <= high <= 0xffff_ffff,
    ensures
        0 <= low + 0x1_0000_0000 * high <= 0xffff_ffff_ffff_ffff,
        (low + 0x1_0000_0000 * high) % 0x1_0000_0000 == low,
        (low + 0x1_0000_0000 * high) / 0x1_0000_0000 == high,
{
}

pub proof fn lemma_u64_sound(bytes: Seq<u8>, at: int)
    requires
        has(bytes, at, 8),
    ensures
        bytes.subrange(at, at + 8) == enc_u64(long_at(bytes, at) as u64),
{
    lemma_u32_sound(bytes, at);
    lemma_u32_sound(bytes, at + 4);
    lemma_join(bytes, at, at + 4, at + 8);
    let low = word_at(bytes, at) as int;
    let high = word_at(bytes, at + 4) as int;
    lemma_digits(
        bytes[at] as int,
        bytes[at + 1] as int,
        bytes[at + 2] as int,
        bytes[at + 3] as int,
    );
    lemma_digits(
        bytes[at + 4] as int,
        bytes[at + 5] as int,
        bytes[at + 6] as int,
        bytes[at + 7] as int,
    );
    lemma_halves(low, high);
    let x = long_at(bytes, at) as u64;
    assert(x == low + 0x1_0000_0000 * high);
    assert((x % 0x1_0000_0000) as u32 == low);
    assert((x / 0x1_0000_0000) as u32 == high);
}

pub proof fn lemma_u64_complete(bytes: Seq<u8>, at: int, x: u64)
    requires
        has(bytes, at, 8),
        bytes.subrange(at, at + 8) == enc_u64(x),
    ensures
        read_u64(bytes, at) == Some((x, at + 8)),
{
    let low = (x % 0x1_0000_0000) as u32;
    let high = (x / 0x1_0000_0000) as u32;
    lemma_split(bytes, at, enc_u32(low), enc_u32(high));
    lemma_u32_complete(bytes, at, low);
    lemma_u32_complete(bytes, at + 4, high);
    assert(word_at(bytes, at) == low);
    assert(word_at(bytes, at + 4) == high);
    assert(x == low + 0x1_0000_0000 * high);
}

pub proof fn lemma_usize_sound(bytes: Seq<u8>, at: int)
    requires
        read_usize(bytes, at) is Some,
    ensures
        bytes.subrange(at, at + 8) == enc_u64(read_usize(bytes, at)->Some_0.0 as u64),
        read_usize(bytes, at)->Some_0.1 == at + 8,
{
    lemma_u64_sound(bytes, at);
}

pub proof fn lemma_usize_complete(bytes: Seq<u8>, at: int, x: usize)
    requires
        has(bytes, at, 8),
        bytes.subrange(at, at + 8) == enc_u64(x as u64),
    ensures
        read_usize(bytes, at) == Some((x, at + 8)),
{
    lemma_u64_complete(bytes, at, x as u64);
}

pub proof fn lemma_bool_sound(bytes: Seq<u8>, at: int)
    requires
        read_bool(bytes, at) is Some,
    ensures
        bytes.subrange(at, at + 1) == enc_bool(read_bool(bytes, at)->Some_0.0),
        read_bool(bytes, at)->Some_0.1 == at + 1,
{
    assert(bytes.subrange(at, at + 1) =~= enc_bool(read_bool(bytes, at)->Some_0.0));
}

pub proof fn lemma_bool_complete(bytes: Seq<u8>, at: int, b: bool)
    requires
        has(bytes, at, 1),
        bytes.subrange(at, at + 1) == enc_bool(b),
    ensures
        read_bool(bytes, at) == Some((b, at + 1)),
{
    assert(bytes.subrange(at, at + 1)[0] == bytes[at]);
}

/// Whether the bytes from `at` on begin with `e`.
pub open spec fn holds_at(bytes: Seq<u8>, at: int, e: Seq<u8>) -> bool {
    &&& 0 <= at
    &&& at + e.len() <= bytes.len()
    &&& bytes.subrange(at, at + e.len()) == e
}

/// The bytes begin with `a + b` exactly when they begin with `a` and go on
/// with `b`.
pub proof fn lemma_holds_concat(bytes: Seq<u8>, at: int, a: Seq<u8>, b: Seq<u8>)
    ensures
        holds_at(bytes, at, a + b) <==> holds_at(bytes, at, a) && holds_at(bytes, at + a.len(), b),
{
    if holds_at(bytes, at, a + b) {
        lemma_split(bytes, at, a, b);
    }
    if holds_at(bytes, at, a) && holds_at(bytes, at + a.len(), b) {
        lemma_join(bytes, at, at + a.len(), at + a.len() + b.len());
    }
}

/// The bytes of a string: their number, then the UTF-8 bytes.
pub open spec fn enc_string(s: Seq<char>) -> Seq<u8> {
    enc_u64(encode_utf8(s).len() as u64) + encode_utf8(s)
}

pub proof fn lemma_string_sound(bytes: Seq<u8>, at: int)
    requires
        read_string(bytes, at) is Some,
        bytes.len() <= u64::MAX,
    ensures
        holds_at(bytes, at, enc_string(read_string(bytes, at)->Some_0.0)),
        read_string(bytes, at)->Some_0.1 == at + enc_string(read_string(bytes, at)->Some_0.0).len(),
{
    let (len, start) = read_usize(bytes, at)->Some_0;
    lemma_usize_sound(bytes, at);
    let part = bytes.subrange(start, start + len);
    decode_utf8_encode_utf8(part);
    let s = decode_utf8(part);
    assert(encode_utf8(s) == part);
    lemma_holds_concat(bytes, at, enc_u64(len as u64), part);
}

pub proof fn lemma_string_complete(bytes: Seq<u8>, at: int, s: Seq<char>)
    requires
        holds_at(bytes, at, enc_string(s)),
        bytes.len() <= usize::MAX,
    ensures
        read_string(bytes, at) == Some((s, at + enc_string(s).len())),
{
    let body = encode_utf8(s);
    let len = body.len();
    lemma_holds_concat(bytes, at, enc_u64(len as u64), body);
    lemma_usize_complete(bytes, at, len as usize);
    encode_utf8_valid_utf8(s);
    encode_utf8_decode_utf8(s);
}

/// The number of a numeric kind.
pub open spec fn scalar_type_index(scalar_type: ScalarType) -> u32 {
    match scalar_type {
        ScalarType::U8 => 0,
        ScalarType::I8 => 1,
        ScalarType::U16 => 2,
        ScalarType::I16 => 3,
        ScalarType::F16 => 4,
        ScalarType::BF16 => 5,
        ScalarType::U32 => 6,
        ScalarType::I32 => 7,
        ScalarType::F32 => 8,
        ScalarType::U64 => 9,
        ScalarType::I64 => 10,
        ScalarType::F64 => 11,
    }
}

/// The bytes of a numeric kind: its number, in 32 bits.
pub open spec fn enc_scalar_type(scalar_type: ScalarType) -> Seq<u8> {
    enc_u32(scalar_type_index(scalar_type))
}

pub proof fn lemma_scalar_type_sound(bytes: Seq<u8>, at: int)
    requires
        read_scalar_type(bytes, at) is Some,
    ensures
        holds_at(bytes, at, enc_scalar_type(read_scalar_type(bytes, at)->Some_0.0)),
        read_scalar_type(bytes, at)->Some_0.1 == at + 4,
{
    lemma_u32_sound(bytes, at);
}

pub proof fn lemma_scalar_type_complete(bytes: Seq<u8>, at: int, scalar_type: ScalarType)
    requires
        holds_at(bytes, at, enc_scalar_type(scalar_type)),
    ensures
        read_scalar_type(bytes, at) == Some((scalar_type, at + 4)),
{
    lemma_u32_complete(bytes, at, scalar_type_index(scalar_type));
}

/// The byte of a flag.
pub open spec fn flag_byte(features: Set<Feature>, f: Feature) -> u8 {
    if features.contains(f) {
        1
    } else {
        0
    }
}

/// The bytes of a capability set: a truth value for each flag.
pub open spec fn enc_features(features: Set<Feature>) -> Seq<u8> {
    seq![
        flag_byte(features, Feature::ShaderInt8),
        flag_byte(features, Feature::ShaderInt16),
        flag_byte(features, Feature::ShaderInt64),
        flag_byte(features, Feature::ShaderFloat16),
        flag_byte(features, Feature::ShaderFloat64),
    ]
}

pub proof fn lemma_features_sound(bytes: Seq<u8>, at: int)
    requires
        read_features(bytes, at) is Some,
    ensures
        holds_at(bytes, at, enc_features(read_features(bytes, at)->Some_0.0)),
        read_features(bytes, at)->Some_0.1 == at + 5,
{
    let f = read_features(bytes, at)->Some_0.0;
    let e = enc_features(f);
    assert(e[0] == bytes[at]);
    assert(e[1] == bytes[at + 1]);
    assert(e[2] == bytes[at + 2]);
    assert(e[3] == bytes[at + 3]);
    assert(e[4] == bytes[at + 4]);
    assert(bytes.subrange(at, at + 5) =~= e);
}

pub proof fn lemma_features_complete(bytes: Seq<u8>, at: int, features: Set<Feature>)
    requires
        holds_at(bytes, at, enc_features(features)),
    ensures
        read_features(bytes, at) == Some((features, at + 5)),
{
    let e = enc_features(features);
    let part = bytes.subrange(at, at + 5);
    assert(part[0] == bytes[at] && part[1] == bytes[at + 1] && part[2] == bytes[at + 2]
        && part[3] == bytes[at + 3] && part[4] == bytes[at + 4]);
    let got = features_of(
        bytes[at] == 1,
        bytes[at + 1] == 1,
        bytes[at + 2] == 1,
        bytes[at + 3] == 1,
        bytes[at + 4] == 1,
    );
    assert forall|f: Feature| got.contains(f) == features.contains(f) by {
        match f {
            Feature::ShaderInt8 => {},
            Feature::ShaderInt16 => {},
            Feature::ShaderInt64 => {},
            Feature::ShaderFloat16 => {},
            Feature::ShaderFloat64 => {},
        }
    }
    assert(got =~= features);
}

/// The bytes of an optional index: a zero byte, or a one and the index.
pub open spec fn enc_option(value: Option<usize>) -> Seq<u8> {
    match value {
        None => seq![0u8],
        Some(v) => seq![1u8] + enc_u64(v as u64),
    }
}

pub proof fn lemma_option_sound(bytes: Seq<u8>, at: int)
    requires
        read_option(bytes, at) is Some,
    ensures
        holds_at(bytes, at, enc_option(read_option(bytes, at)->Some_0.0)),
        read_option(bytes, at)->Some_0.1 == at + enc_option(read_option(bytes, at)->Some_0.0).len(),
{
    let tag = bytes[at];
    if tag == 0 {
        assert(bytes.subrange(at, at + 1) =~= seq![0u8]);
    } else {
        lemma_usize_sound(bytes, at + 1);
        let v = read_usize(bytes, at + 1)->Some_0.0;
        assert(bytes.subrange(at, at + 1) =~= seq![1u8]);
        lemma_holds_concat(bytes, at, seq![1u8], enc_u64(v as u64));
    }
}

pub proof fn lemma_option_complete(bytes: Seq<u8>, at: int, value: Option<usize>)
    requires
        holds_at(bytes, at, enc_option(value)),
    ensures
        read_option(bytes, at) == Some((value, at + enc_option(value).len())),
{
    match value {
        None => {
            assert(bytes.subrange(at, at + 1)[0] == bytes[at]);
        },
        Some(v) => {
            lemma_holds_concat(bytes, at, seq![1u8], enc_u64(v as u64));
            assert(bytes.subrange(at, at + 1)[0] == bytes[at]);
            lemma_usize_complete(bytes, at + 1, v);
        },
    }
}

/// The bytes of the first `n` of the numbers, four for each.
pub open spec fn enc_word_list(words: Seq<u32>, n: nat) -> Seq<u8>
    decreases n,
{
    if n == 0 {
        Seq::empty()
    } else {
        enc_word_list(words, (n - 1) as nat) + enc_u32(words[n - 1])
    }
}

/// The bytes of a list of 32-bit numbers: its length, then the numbers.
pub open spec fn enc_words(words: Seq<u32>) -> Seq<u8> {
    enc_u64(words.len() as u64) + enc_word_list(words, words.len())
}

pub proof fn lemma_word_list_len(words: Seq<u32>, n: nat)
    ensures
        enc_word_list(words, n).len() == 4 * n,
    decreases n,
{
    if n > 0 {
        lemma_word_list_len(words, (n - 1) as nat);
    }
}

pub proof fn lemma_word_list_sound(bytes: Seq<u8>, at: int, total: nat, n: nat)
    requires
        has(bytes, at, 4 * (total as int)),
        n <= total,
    ensures
        holds_at(bytes, at, enc_word_list(words_at(bytes, at, total), n)),
    decreases n,
{
    let words = words_at(bytes, at, total);
    lemma_word_list_len(words, n);
    if n == 0 {
        assert(bytes.subrange(at, at) =~= enc_word_list(words, 0));
    } else {
        lemma_word_list_sound(bytes, at, total, (n - 1) as nat);
        lemma_word_list_len(words, (n - 1) as nat);
        lemma_u32_sound(bytes, at + 4 * (n - 1));
        lemma_holds_concat(bytes, at, enc_word_list(words, (n - 1) as nat), enc_u32(words[n - 1]));
    }
}

pub proof fn lemma_word_list_complete(bytes: Seq<u8>, at: int, words: Seq<u32>, n: nat)
    requires
        holds_at(bytes, at, enc_word_list(words, n)),
        n <= words.len(),
    ensures
        forall|i: int| 0 <= i < n ==> word_at(bytes, at + 4 * i) as u32 == #[trigger] words[i],
    decreases n,
{
    if n > 0 {
        lemma_word_list_len(words, (n - 1) as nat);
        lemma_holds_concat(bytes, at, enc_word_list(words, (n - 1) as nat), enc_u32(words[n - 1]));
        lemma_word_list_complete(bytes, at, words, (n - 1) as nat);
        lemma_u32_complete(bytes, at + 4 * (n - 1), words[n - 1]);
    }
}

pub proof fn lemma_words_sound(bytes: Seq<u8>, at: int)
    requires
        read_words(bytes, at) is Some,
    ensures
        holds_at(bytes, at, enc_words(read_words(bytes, at)->Some_0.0)),
        read_words(bytes, at)->Some_0.1 == at + enc_words(read_words(bytes, at)->Some_0.0).len(),
{
    let (len, start) = read_usize(bytes, at)->Some_0;
    lemma_usize_sound(bytes, at);
    let words = words_at(bytes, start, len as nat);
    lemma_word_list_sound(bytes, start, len as nat, len as nat);
    lemma_word_list_len(words, len as nat);
    lemma_holds_concat(bytes, at, enc_u64(len as u64), enc_word_list(words, len as nat));
}

pub proof fn lemma_words_complete(bytes: Seq<u8>, at: int, words: Seq<u32>)
    requires
        holds_at(bytes, at, enc_words(words)),
        bytes.len() <= usize::MAX,
    ensures
        read_words(bytes, at) == Some((words, at + enc_words(words).len())),
{
    let n = words.len();
    lemma_word_list_len(words, n);
    lemma_holds_concat(bytes, at, enc_u64(n as u64), enc_word_list(words, n));
    lemma_usize_complete(bytes, at, n as usize);
    lemma_word_list_complete(bytes, at + 8, words, n);
    assert(words_at(bytes, at + 8, n) =~= words);
}

/// The bytes of a specialization constant.
pub open spec fn enc_spec_desc(desc: SpecDescView) -> Seq<u8> {
    enc_string(desc.name) + enc_scalar_type(desc.scalar_type) + enc_option(desc.thread_dim)
}

/// The bytes of a binding.
pub open spec fn enc_slice_desc(desc: SliceDescView) -> Seq<u8> {
    enc_string(desc.name) + enc_scalar_type(desc.scalar_type) + enc_bool(desc.mutable) + enc_bool(
        desc.item,
    )
}

/// The bytes of a push constant.
pub open spec fn enc_push_desc(desc: PushDescView) -> Seq<u8> {
    enc_string(desc.name) + enc_scalar_type(desc.scalar_type)
}

pub proof fn lemma_spec_desc_sound(bytes: Seq<u8>, at: int)
    requires
        read_spec_desc(bytes, at) is Some,
        bytes.len() <= u64::MAX,
    ensures
        holds_at(bytes, at, enc_spec_desc(read_spec_desc(bytes, at)->Some_0.0)),
        read_spec_desc(bytes, at)->Some_0.1 == at + enc_spec_desc(
            read_spec_desc(bytes, at)->Some_0.0,
        ).len(),
{
    let (name, a) = read_string(bytes, at)->Some_0;
    let (scalar_type, b) = read_scalar_type(bytes, a)->Some_0;
    let (thread_dim, c) = read_option(bytes, b)->Some_0;
    lemma_string_sound(bytes, at);
    lemma_scalar_type_sound(bytes, a);
    lemma_option_sound(bytes, b);
    lemma_holds_concat(bytes, at, enc_string(name), enc_scalar_type(scalar_type));
    lemma_holds_concat(
        bytes,
        at,
        enc_string(name) + enc_scalar_type(scalar_type),
        enc_option(thread_dim),
    );
}

pub proof fn lemma_spec_desc_complete(bytes: Seq<u8>, at: int, desc: SpecDescView)
    requires
        holds_at(bytes, at, enc_spec_desc(desc)),
        bytes.len() <= usize::MAX,
    ensures
        read_spec_desc(bytes, at) == Some((desc, at + enc_spec_desc(desc).len())),
{
    let a = enc_string(desc.name);
    let b = enc_scalar_type(desc.scalar_type);
    let c = enc_option(desc.thread_dim);
    lemma_holds_concat(bytes, at, a + b, c);
    lemma_holds_concat(bytes, at, a, b);
    lemma_string_complete(bytes, at, desc.name);
    lemma_scalar_type_complete(bytes, at + a.len(), desc.scalar_type);
    lemma_option_complete(bytes, at + a.len() + b.len(), desc.thread_dim);
}

pub proof fn lemma_slice_desc_sound(bytes: Seq<u8>, at: int)
    requires
        read_slice_desc(bytes, at) is Some,
        bytes.len() <= u64::MAX,
    ensures
        holds_at(bytes, at, enc_slice_desc(read_slice_desc(bytes, at)->Some_0.0)),
        read_slice_desc(bytes, at)->Some_0.1 == at + enc_slice_desc(
            read_slice_desc(bytes, at)->Some_0.0,
        ).len(),
{
    let (name, a) = read_string(bytes, at)->Some_0;
    let (scalar_type, b) = read_scalar_type(bytes, a)->Some_0;
    let (mutable, c) = read_bool(bytes, b)->Some_0;
    let (item, d) = read_bool(bytes, c)->Some_0;
    lemma_string_sound(bytes, at);
    lemma_scalar_type_sound(bytes, a);
    lemma_bool_sound(bytes, b);
    lemma_bool_sound(bytes, c);
    lemma_holds_concat(bytes, at, enc_string(name), enc_scalar_type(scalar_type));
    lemma_holds_concat(
        bytes,
        at,
        enc_string(name) + enc_scalar_type(scalar_type),
        enc_bool(mutable),
    );
    lemma_holds_concat(
        bytes,
        at,
        enc_string(name) + enc_scalar_type(scalar_type) + enc_bool(mutable),
        enc_bool(item),
    );
}

pub proof fn lemma_slice_desc_complete(bytes: Seq<u8>, at: int, desc: SliceDescView)
    requires
        holds_at(bytes, at, enc_slice_desc(desc)),
        bytes.len() <= usize::MAX,
    ensures
        read_slice_desc(bytes, at) == Some((desc, at + enc_slice_desc(desc).len())),
{
    let a = enc_string(desc.name);
    let b = enc_scalar_type(desc.scalar_type);
    let c = enc_bool(desc.mutable);
    let d = enc_bool(desc.item);
    lemma_holds_concat(bytes, at, a + b + c, d);
    lemma_holds_concat(bytes, at, a + b, c);
    lemma_holds_concat(bytes, at, a, b);
    lemma_string_complete(bytes, at, desc.name);
    lemma_scalar_type_complete(bytes, at + a.len(), desc.scalar_type);
    lemma_bool_complete(bytes, at + a.len() + b.len(), desc.mutable);
    lemma_bool_complete(bytes, at + a.len() + b.len() + c.len(), desc.item);
}

pub proof fn lemma_push_desc_sound(bytes: Seq<u8>, at: int)
    requires
        read_push_desc(bytes, at) is Some,
        bytes.len() <= u64::MAX,
    ensures
        holds_at(bytes, at, enc_push_desc(read_push_desc(bytes, at)->Some_0.0)),
        read_push_desc(bytes, at)->Some_0.1 == at + enc_push_desc(
            read_push_desc(bytes, at)->Some_0.0,
        ).len(),
{
    let (name, a) = read_string(bytes, at)->Some_0;
    let (scalar_type, b) = read_scalar_type(bytes, a)->Some_0;
    lemma_string_sound(bytes, at);
    lemma_scalar_type_sound(bytes, a);
    lemma_holds_concat(bytes, at, enc_string(name), enc_scalar_type(scalar_type));
}

pub proof fn lemma_push_desc_complete(bytes: Seq<u8>, at: int, desc: PushDescView)
    requires
        holds_at(bytes, at, enc_push_desc(desc)),
        bytes.len() <= usize::MAX,
    ensures
        read_push_desc(bytes, at) == Some((desc, at + enc_push_desc(desc).len())),
{
    let a = enc_string(desc.name);
    let b = enc_scalar_type(desc.scalar_type);
    lemma_holds_concat(bytes, at, a, b);
    lemma_string_complete(bytes, at, desc.name);
    lemma_scalar_type_complete(bytes, at + a.len(), desc.scalar_type);
}

/// The bytes of the first `n` of the specialization constants.
pub open spec fn enc_spec_list(descs: Seq<SpecDescView>, n: nat) -> Seq<u8>
    decreases n,
{
    if n == 0 {
        Seq::empty()
    } else {
        enc_spec_list(descs, (n - 1) as nat) + enc_spec_desc(descs[n - 1])
    }
}

/// The bytes of a list of specialization constants: its length, then its items.
pub open spec fn enc_spec_descs(descs: Seq<SpecDescView>) -> Seq<u8> {
    enc_u64(descs.len() as u64) + enc_spec_list(descs, descs.len())
}

/// The bytes of the first items depend on those items only, and are at
/// least as many as the items.
pub proof fn lemma_spec_list_prefix(a: Seq<SpecDescView>, b: Seq<SpecDescView>, n: nat)
    requires
        forall|i: int| 0 <= i < n ==> a[i] == b[i],
    ensures
        enc_spec_list(a, n) == enc_spec_list(b, n),
        enc_spec_list(a, n).len() >= n,
    decreases n,
{
    if n > 0 {
        lemma_spec_list_prefix(a, b, (n - 1) as nat);
    }
}

pub proof fn lemma_spec_list_sound(bytes: Seq<u8>, at: int, n: nat)
    requires
        read_spec_descs_n(bytes, at, n) is Some,
        0 <= at <= bytes.len(),
        bytes.len() <= u64::MAX,
    ensures
        read_spec_descs_n(bytes, at, n)->Some_0.0.len() == n,
        holds_at(bytes, at, enc_spec_list(read_spec_descs_n(bytes, at, n)->Some_0.0, n)),
        read_spec_descs_n(bytes, at, n)->Some_0.1 == at + enc_spec_list(
            read_spec_descs_n(bytes, at, n)->Some_0.0,
            n,
        ).len(),
    decreases n,
{
    if n == 0 {
        assert(bytes.subrange(at, at) =~= Seq::<u8>::empty());
    } else {
        let (before, a) = read_spec_descs_n(bytes, at, (n - 1) as nat)->Some_0;
        let (desc, b) = read_spec_desc(bytes, a)->Some_0;
        let items = before.push(desc);
        lemma_spec_list_sound(bytes, at, (n - 1) as nat);
        lemma_spec_desc_sound(bytes, a);
        lemma_spec_list_prefix(items, before, (n - 1) as nat);
        lemma_holds_concat(
            bytes,
            at,
            enc_spec_list(items, (n - 1) as nat),
            enc_spec_desc(desc),
        );
    }
}

pub proof fn lemma_spec_list_complete(bytes: Seq<u8>, at: int, descs: Seq<SpecDescView>, n: nat)
    requires
        holds_at(bytes, at, enc_spec_list(descs, n)),
        n <= descs.len(),
        bytes.len() <= usize::MAX,
    ensures
        read_spec_descs_n(bytes, at, n) == Some(
            (descs.take(n as int), at + enc_spec_list(descs, n).len()),
        ),
    decreases n,
{
    if n == 0 {
        assert(descs.take(0) =~= Seq::<SpecDescView>::empty());
    } else {
        let before = enc_spec_list(descs, (n - 1) as nat);
        lemma_holds_concat(bytes, at, before, enc_spec_desc(descs[n - 1]));
        lemma_spec_list_complete(bytes, at, descs, (n - 1) as nat);
        lemma_spec_desc_complete(bytes, at + before.len(), descs[n - 1]);
        assert(descs.take(n as int) =~= descs.take(n - 1).push(descs[n - 1]));
    }
}

pub proof fn lemma_spec_descs_sound(bytes: Seq<u8>, at: int)
    requires
        read_spec_descs(bytes, at) is Some,
        bytes.len() <= u64::MAX,
    ensures
        holds_at(bytes, at, enc_spec_descs(read_spec_descs(bytes, at)->Some_0.0)),
        read_spec_descs(bytes, at)->Some_0.1 == at + enc_spec_descs(
            read_spec_descs(bytes, at)->Some_0.0,
        ).len(),
{
    let (len, start) = read_usize(bytes, at)->Some_0;
    lemma_usize_sound(bytes, at);
    lemma_spec_list_sound(bytes, start, len as nat);
    let items = read_spec_descs_n(bytes, start, len as nat)->Some_0.0;
    lemma_holds_concat(bytes, at, enc_u64(len as u64), enc_spec_list(items, len as nat));
}

pub proof fn lemma_spec_descs_complete(bytes: Seq<u8>, at: int, descs: Seq<SpecDescView>)
    requires
        holds_at(bytes, at, enc_spec_descs(descs)),
        bytes.len() <= usize::MAX,
    ensures
        read_spec_descs(bytes, at) == Some((descs, at + enc_spec_descs(descs).len())),
{
    let n = descs.len();
    lemma_spec_list_prefix(descs, descs, n);
    lemma_holds_concat(bytes, at, enc_u64(n as u64), enc_spec_list(descs, n));
    lemma_usize_complete(bytes, at, n as usize);
    lemma_spec_list_complete(bytes, at + 8, descs, n);
    assert(descs.take(n as int) =~= descs);
}

/// The bytes of the first `n` of the bindings.
pub open spec fn enc_slice_list(descs: Seq<SliceDescView>, n: nat) -> Seq<u8>
    decreases n,
{
    if n == 0 {
        Seq::empty()
    } else {
        enc_slice_list(descs, (n - 1) as nat) + enc_slice_desc(descs[n - 1])
    }
}

/// The bytes of a list of bindings: its length, then its items.
pub open spec fn enc_slice_descs(descs: Seq<SliceDescView>) -> Seq<u8> {
    enc_u64(descs.len() as u64) + enc_slice_list(descs, descs.len())
}

/// The bytes of the first items depend on those items only, and are at
/// least as many as the items.
pub proof fn lemma_slice_list_prefix(a: Seq<SliceDescView>, b: Seq<SliceDescView>, n: nat)
    requires
        forall|i: int| 0 <= i < n ==> a[i] == b[i],
    ensures
        enc_slice_list(a, n) == enc_slice_list(b, n),
        enc_slice_list(a, n).len() >= n,
    decreases n,
{
    if n > 0 {
        lemma_slice_list_prefix(a, b, (n - 1) as nat);
    }
}

pub proof fn lemma_slice_list_sound(bytes: Seq<u8>, at: int, n: nat)
    requires
        read_slice_descs_n(bytes, at, n) is Some,
        0 <= at <= bytes.len(),
        bytes.len() <= u64::MAX,
    ensures
        read_slice_descs_n(bytes, at, n)->Some_0.0.len() == n,
        holds_at(bytes, at, enc_slice_list(read_slice_descs_n(bytes, at, n)->Some_0.0, n)),
        read_slice_descs_n(bytes, at, n)->Some_0.1 == at + enc_slice_list(
            read_slice_descs_n(bytes, at, n)->Some_0.0,
            n,
        ).len(),
    decreases n,
{
    if n == 0 {
        assert(bytes.subrange(at, at) =~= Seq::<u8>::empty());
    } else {
        let (before, a) = read_slice_descs_n(bytes, at, (n - 1) as nat)->Some_0;
        let (desc, b) = read_slice_desc(bytes, a)->Some_0;
        let items = before.push(desc);
        lemma_slice_list_sound(bytes, at, (n - 1) as nat);
        lemma_slice_desc_sound(bytes, a);
        lemma_slice_list_prefix(items, before, (n - 1) as nat);
        lemma_holds_concat(
            bytes,
            at,
            enc_slice_list(items, (n - 1) as nat),
            enc_slice_desc(desc),
        );
    }
}

pub proof fn lemma_slice_list_complete(bytes: Seq<u8>, at: int, descs: Seq<SliceDescView>, n: nat)
    requires
        holds_at(bytes, at, enc_slice_list(descs, n)),
        n <= descs.len(),
        bytes.len() <= usize::MAX,
    ensures
        read_slice_descs_n(bytes, at, n) == Some(
            (descs.take(n as int), at + enc_slice_list(descs, n).len()),
        ),
    decreases n,
{
    if n == 0 {
        assert(descs.take(0) =~= Seq::<SliceDescView>::empty());
    } else {
        let before = enc_slice_list(descs, (n - 1) as nat);
        lemma_holds_concat(bytes, at, before, enc_slice_desc(descs[n - 1]));
        lemma_slice_list_complete(bytes, at, descs, (n - 1) as nat);
        lemma_slice_desc_complete(bytes, at + before.len(), descs[n - 1]);
        assert(descs.take(n as int) =~= descs.take(n - 1).push(descs[n - 1]));
    }
}

pub proof fn lemma_slice_descs_sound(bytes: Seq<u8>, at: int)
    requires
        read_slice_descs(bytes, at) is Some,
        bytes.len() <= u64::MAX,
    ensures
        holds_at(bytes, at, enc_slice_descs(read_slice_descs(bytes, at)->Some_0.0)),
        read_slice_descs(bytes, at)->Some_0.1 == at + enc_slice_descs(
            read_slice_descs(bytes, at)->Some_0.0,
        ).len(),
{
    let (len, start) = read_usize(bytes, at)->Some_0;
    lemma_usize_sound(bytes, at);
    lemma_slice_list_sound(bytes, start, len as nat);
    let items = read_slice_descs_n(bytes, start, len as nat)->Some_0.0;
    lemma_holds_concat(bytes, at, enc_u64(len as u64), enc_slice_list(items, len as nat));
}

pub proof fn lemma_slice_descs_complete(bytes: Seq<u8>, at: int, descs: Seq<SliceDescView>)
    requires
        holds_at(bytes, at, enc_slice_descs(descs)),
        bytes.len() <= usize::MAX,
    ensures
        read_slice_descs(bytes, at) == Some((descs, at + enc_slice_descs(descs).len())),
{
    let n = descs.len();
    lemma_slice_list_prefix(descs, descs, n);
    lemma_holds_concat(bytes, at, enc_u64(n as u64), enc_slice_list(descs, n));
    lemma_usize_complete(bytes, at, n as usize);
    lemma_slice_list_complete(bytes, at + 8, descs, n);
    assert(descs.take(n as int) =~= descs);
}

/// The bytes of the first `n` of the push constants.
pub open spec fn enc_push_list(descs: Seq<PushDescView>, n: nat) -> Seq<u8>
    decreases n,
{
    if n == 0 {
        Seq::empty()
    } else {
        enc_push_list(descs, (n - 1) as nat) + enc_push_desc(descs[n - 1])
    }
}

/// The bytes of a list of push constants: its length, then its items.
pub open spec fn enc_push_descs(descs: Seq<PushDescView>) -> Seq<u8> {
    enc_u64(descs.len() as u64) + enc_push_list(descs, descs.len())
}

/// The bytes of the first items depend on those items only, and are at
/// least as many as the items.
pub proof fn lemma_push_list_prefix(a: Seq<PushDescView>, b: Seq<PushDescView>, n: nat)
    requires
        forall|i: int| 0 <= i < n ==> a[i] == b[i],
    ensures
        enc_push_list(a, n) == enc_push_list(b, n),
        enc_push_list(a, n).len() >= n,
    decreases n,
{
    if n > 0 {
        lemma_push_list_prefix(a, b, (n - 1) as nat);
    }
}

pub proof fn lemma_push_list_sound(bytes: Seq<u8>, at: int, n: nat)
    requires
        read_push_descs_n(bytes, at, n) is Some,
        0 <= at <= bytes.len(),
        bytes.len() <= u64::MAX,
    ensures
        read_push_descs_n(bytes, at, n)->Some_0.0.len() == n,
        holds_at(bytes, at, enc_push_list(read_push_descs_n(bytes, at, n)->Some_0.0, n)),
        read_push_descs_n(bytes, at, n)->Some_0.1 == at + enc_push_list(
            read_push_descs_n(bytes, at, n)->Some_0.0,
            n,
        ).len(),
    decreases n,
{
    if n == 0 {
        assert(bytes.subrange(at, at) =~= Seq::<u8>::empty());
    } else {
        let (before, a) = read_push_descs_n(bytes, at, (n - 1) as nat)->Some_0;
        let (desc, b) = read_push_desc(bytes, a)->Some_0;
        let items = before.push(desc);
        lemma_push_list_sound(bytes, at, (n - 1) as nat);
        lemma_push_desc_sound(bytes, a);
        lemma_push_list_prefix(items, before, (n - 1) as nat);
        lemma_holds_concat(
            bytes,
            at,
            enc_push_list(items, (n - 1) as nat),
            enc_push_desc(desc),
        );
    }
}

pub proof fn lemma_push_list_complete(bytes: Seq<u8>, at: int, descs: Seq<PushDescView>, n: nat)
    requires
        holds_at(bytes, at, enc_push_list(descs, n)),
        n <= descs.len(),
        bytes.len() <= usize::MAX,
    ensures
        read_push_descs_n(bytes, at, n) == Some(
            (descs.take(n as int), at + enc_push_list(descs, n).len()),
        ),
    decreases n,
{
    if n == 0 {
        assert(descs.take(0) =~= Seq::<PushDescView>::empty());
    } else {
        let before = enc_push_list(descs, (n - 1) as nat);
        lemma_holds_concat(bytes, at, before, enc_push_desc(descs[n - 1]));
        lemma_push_list_complete(bytes, at, descs, (n - 1) as nat);
        lemma_push_desc_complete(bytes, at + before.len(), descs[n - 1]);
        assert(descs.take(n as int) =~= descs.take(n - 1).push(descs[n - 1]));
    }
}

pub proof fn lemma_push_descs_sound(bytes: Seq<u8>, at: int)
    requires
        read_push_descs(bytes, at) is Some,
        bytes.len() <= u64::MAX,
    ensures
        holds_at(bytes, at, enc_push_descs(read_push_descs(bytes, at)->Some_0.0)),
        read_push_descs(bytes, at)->Some_0.1 == at + enc_push_descs(
            read_push_descs(bytes, at)->Some_0.0,
        ).len(),
{
    let (len, start) = read_usize(bytes, at)->Some_0;
    lemma_usize_sound(bytes, at);
    lemma_push_list_sound(bytes, start, len as nat);
    let items = read_push_descs_n(bytes, start, len as nat)->Some_0.0;
    lemma_holds_concat(bytes, at, enc_u64(len as u64), enc_push_list(items, len as nat));
}

pub proof fn lemma_push_descs_complete(bytes: Seq<u8>, at: int, descs: Seq<PushDescView>)
    requires
        holds_at(bytes, at, enc_push_descs(descs)),
        bytes.len() <= usize::MAX,
    ensures
        read_push_descs(bytes, at) == Some((descs, at + enc_push_descs(descs).len())),
{
    let n = descs.len();
    lemma_push_list_prefix(descs, descs, n);
    lemma_holds_concat(bytes, at, enc_u64(n as u64), enc_push_list(descs, n));
    lemma_usize_complete(bytes, at, n as usize);
    lemma_push_list_complete(bytes, at + 8, descs, n);
    assert(descs.take(n as int) =~= descs);
}

/// The bytes of an artifact: name, bytecode, capabilities, workgroup size,
/// safety, then the constants, the bindings and the push constants.
pub open spec fn encode(desc: KernelDescView) -> Seq<u8> {
    enc_string(desc.name) + enc_words(desc.spirv) + enc_features(desc.features) + enc_words(
        desc.threads,
    ) + enc_bool(desc.safe) + enc_spec_descs(desc.spec_descs) + enc_slice_descs(desc.slice_descs)
        + enc_push_descs(desc.push_descs)
}

/// Parts that follow one another from the start to the end are the whole.
pub proof fn lemma_chain_joins(
    bytes: Seq<u8>,
    p1: Seq<u8>,
    p2: Seq<u8>,
    p3: Seq<u8>,
    p4: Seq<u8>,
    p5: Seq<u8>,
    p6: Seq<u8>,
    p7: Seq<u8>,
    p8: Seq<u8>,
)
    requires
        holds_at(bytes, 0, p1),
        holds_at(bytes, p1.len() as int, p2),
        holds_at(bytes, (p1.len() + p2.len()) as int, p3),
        holds_at(bytes, (p1.len() + p2.len() + p3.len()) as int, p4),
        holds_at(bytes, (p1.len() + p2.len() + p3.len() + p4.len()) as int, p5),
        holds_at(bytes, (p1.len() + p2.len() + p3.len() + p4.len() + p5.len()) as int, p6),
        holds_at(bytes, (p1.len() + p2.len() + p3.len() + p4.len() + p5.len() + p6.len()) as int, p7),
        holds_at(
            bytes,
            (p1.len() + p2.len() + p3.len() + p4.len() + p5.len() + p6.len() + p7.len()) as int,
            p8,
        ),
        p1.len() + p2.len() + p3.len() + p4.len() + p5.len() + p6.len() + p7.len() + p8.len()
            == bytes.len(),
    ensures
        p1 + p2 + p3 + p4 + p5 + p6 + p7 + p8 == bytes,
{
    lemma_holds_concat(bytes, 0, p1, p2);
    lemma_holds_concat(bytes, 0, p1 + p2, p3);
    lemma_holds_concat(bytes, 0, p1 + p2 + p3, p4);
    lemma_holds_concat(bytes, 0, p1 + p2 + p3 + p4, p5);
    lemma_holds_concat(bytes, 0, p1 + p2 + p3 + p4 + p5, p6);
    lemma_holds_concat(bytes, 0, p1 + p2 + p3 + p4 + p5 + p6, p7);
    lemma_holds_concat(bytes, 0, p1 + p2 + p3 + p4 + p5 + p6 + p7, p8);
    assert(bytes.subrange(0, bytes.len() as int) =~= bytes);
}

/// The whole begins with its first part and goes on with the others, each
/// where the one before ends.
pub proof fn lemma_chain_splits(
    p1: Seq<u8>,
    p2: Seq<u8>,
    p3: Seq<u8>,
    p4: Seq<u8>,
    p5: Seq<u8>,
    p6: Seq<u8>,
    p7: Seq<u8>,
    p8: Seq<u8>,
)
    ensures
        ({
            let bytes = p1 + p2 + p3 + p4 + p5 + p6 + p7 + p8;
            &&& holds_at(bytes, 0, p1)
            &&& holds_at(bytes, p1.len() as int, p2)
            &&& holds_at(bytes, (p1.len() + p2.len()) as int, p3)
            &&& holds_at(bytes, (p1.len() + p2.len() + p3.len()) as int, p4)
            &&& holds_at(bytes, (p1.len() + p2.len() + p3.len() + p4.len()) as int, p5)
            &&& holds_at(bytes, (p1.len() + p2.len() + p3.len() + p4.len() + p5.len()) as int, p6)
            &&& holds_at(
                bytes,
                (p1.len() + p2.len() + p3.len() + p4.len() + p5.len() + p6.len()) as int,
                p7,
            )
            &&& holds_at(
                bytes,
                (p1.len() + p2.len() + p3.len() + p4.len() + p5.len() + p6.len() + p7.len()) as int,
                p8,
            )
            &&& bytes.len() == p1.len() + p2.len() + p3.len() + p4.len() + p5.len() + p6.len()
                + p7.len() + p8.len()
        }),
{
    let bytes = p1 + p2 + p3 + p4 + p5 + p6 + p7 + p8;
    assert(bytes.subrange(0, bytes.len() as int) =~= bytes);
    lemma_holds_concat(bytes, 0, p1 + p2 + p3 + p4 + p5 + p6 + p7, p8);
    lemma_holds_concat(bytes, 0, p1 + p2 + p3 + p4 + p5 + p6, p7);
    lemma_holds_concat(bytes, 0, p1 + p2 + p3 + p4 + p5, p6);
    lemma_holds_concat(bytes, 0, p1 + p2 + p3 + p4, p5);
    lemma_holds_concat(bytes, 0, p1 + p2 + p3, p4);
    lemma_holds_concat(bytes, 0, p1 + p2, p3);
    lemma_holds_concat(bytes, 0, p1, p2);
}

/// Bytes that can be read are the bytes of the artifact that is read from
/// them.
pub proof fn lemma_decode_sound(bytes: Seq<u8>)
    requires
        decode(bytes) is Some,
        bytes.len() <= u64::MAX,
    ensures
        encode(decode(bytes)->Some_0) == bytes,
        1 <= decode(bytes)->Some_0.threads.len() <= 3,
{
    let (name, a) = read_string(bytes, 0)->Some_0;
    let (spirv, b) = read_words(bytes, a)->Some_0;
    let (features, c) = read_features(bytes, b)->Some_0;
    let (threads, d) = read_words(bytes, c)->Some_0;
    let (safe, e) = read_bool(bytes, d)->Some_0;
    let (spec_descs, f) = read_spec_descs(bytes, e)->Some_0;
    let (slice_descs, g) = read_slice_descs(bytes, f)->Some_0;
    let (push_descs, h) = read_push_descs(bytes, g)->Some_0;
    let desc = KernelDescView {
        name,
        spirv,
        features,
        threads,
        safe,
        spec_descs,
        slice_descs,
        push_descs,
    };
    assert(decode(bytes) == Some(desc) && h == bytes.len());
    lemma_string_sound(bytes, 0);
    lemma_words_sound(bytes, a);
    lemma_features_sound(bytes, b);
    lemma_words_sound(bytes, c);
    lemma_bool_sound(bytes, d);
    lemma_spec_descs_sound(bytes, e);
    lemma_slice_descs_sound(bytes, f);
    lemma_push_descs_sound(bytes, g);
    lemma_chain_joins(
        bytes,
        enc_string(name),
        enc_words(spirv),
        enc_features(features),
        enc_words(threads),
        enc_bool(safe),
        enc_spec_descs(spec_descs),
        enc_slice_descs(slice_descs),
        enc_push_descs(push_descs),
    );
}

/// Bytes that hold the parts of an artifact, one after the other and
/// nothing more, can be read, and reading them gives the artifact.
pub proof fn lemma_decode_parts(
    bytes: Seq<u8>,
    desc: KernelDescView,
    a: int,
    b: int,
    c: int,
    d: int,
    e: int,
    f: int,
    g: int,
)
    requires
        1 <= desc.threads.len() <= 3,
        bytes.len() <= usize::MAX,
        read_string(bytes, 0) == Some((desc.name, a)),
        read_words(bytes, a) == Some((desc.spirv, b)),
        read_features(bytes, b) == Some((desc.features, c)),
        read_words(bytes, c) == Some((desc.threads, d)),
        read_bool(bytes, d) == Some((desc.safe, e)),
        read_spec_descs(bytes, e) == Some((desc.spec_descs, f)),
        read_slice_descs(bytes, f) == Some((desc.slice_descs, g)),
        read_push_descs(bytes, g) == Some((desc.push_descs, bytes.len() as int)),
    ensures
        decode(bytes) == Some(desc),
{
}

/// Bytes that begin with the bytes of each part of an artifact, each where
/// the one before ends, and end with the last, can be read, and reading
/// them gives the artifact.
pub proof fn lemma_decode_held(bytes: Seq<u8>, desc: KernelDescView)
    requires
        1 <= desc.threads.len() <= 3,
        bytes.len() <= usize::MAX,
        ({
            let a = enc_string(desc.name).len() as int;
            let b = a + enc_words(desc.spirv).len();
            let c = b + enc_features(desc.features).len();
            let d = c + enc_words(desc.threads).len();
            let e = d + enc_bool(desc.safe).len();
            let f = e + enc_spec_descs(desc.spec_descs).len();
            let g = f + enc_slice_descs(desc.slice_descs).len();
            &&& holds_at(bytes, 0, enc_string(desc.name))
            &&& holds_at(bytes, a, enc_words(desc.spirv))
            &&& holds_at(bytes, b, enc_features(desc.features))
            &&& holds_at(bytes, c, enc_words(desc.threads))
            &&& holds_at(bytes, d, enc_bool(desc.safe))
            &&& holds_at(bytes, e, enc_spec_descs(desc.spec_descs))
            &&& holds_at(bytes, f, enc_slice_descs(desc.slice_descs))
            &&& holds_at(bytes, g, enc_push_descs(desc.push_descs))
            &&& g + enc_push_descs(desc.push_descs).len() == bytes.len()
        }),
    ensures
        decode(bytes) == Some(desc),
{
    let a = enc_string(desc.name).len() as int;
    let b = a + enc_words(desc.spirv).len();
    let c = b + enc_features(desc.features).len();
    let d = c + enc_words(desc.threads).len();
    let e = d + enc_bool(desc.safe).len();
    let f = e + enc_spec_descs(desc.spec_descs).len();
    let g = f + enc_slice_descs(desc.slice_descs).len();
    lemma_string_complete(bytes, 0, desc.name);
    lemma_words_complete(bytes, a, desc.spirv);
    lemma_features_complete(bytes, b, desc.features);
    lemma_words_complete(bytes, c, desc.threads);
    lemma_bool_complete(bytes, d, desc.safe);
    lemma_spec_descs_complete(bytes, e, desc.spec_descs);
    lemma_slice_descs_complete(bytes, f, desc.slice_descs);
    lemma_push_descs_complete(bytes, g, desc.push_descs);
    lemma_decode_parts(bytes, desc, a, b, c, d, e, f, g);
}

/// The bytes of an artifact with one to three workgroup dimensions can be
/// read, and reading them gives the artifact.
pub proof fn lemma_decode_complete(desc: KernelDescView)
    requires
        1 <= desc.threads.len() <= 3,
        encode(desc).len() <= usize::MAX,
    ensures
        decode(encode(desc)) == Some(desc),
{
    lemma_chain_splits(
        enc_string(desc.name),
        enc_words(desc.spirv),
        enc_features(desc.features),
        enc_words(desc.threads),
        enc_bool(desc.safe),
        enc_spec_descs(desc.spec_descs),
        enc_slice_descs(desc.slice_descs),
        enc_push_descs(desc.push_descs),
    );
    lemma_decode_held(encode(desc), desc);
}

/// Two artifacts with the same bytes are the same artifact.
pub proof fn lemma_encode_injective(a: KernelDescView, b: KernelDescView)
    requires
        1 <= a.threads.len() <= 3,
        1 <= b.threads.len() <= 3,
        encode(a).len() <= usize::MAX,
        encode(a) == encode(b),
    ensures
        a == b,
{
    lemma_decode_complete(a);
    lemma_decode_complete(b);
}

} // verus!
