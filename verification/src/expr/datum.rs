//! Datum: typed values in Iceberg expressions.
//!
//! Floating-point values are held by their IEEE-754 bit patterns (`u32` for `float`,
//! `u64` for `double`); every comparison on them is carried out on those bits.
use vstd::prelude::*;
use std::cmp::Ordering;
use crate::text::{chars_of, owned, copy_string, parse_uuid_text, uuid_text_bytes};

verus! {

broadcast use vstd::string::group_string_axioms;

/// A typed value.
#[derive(Debug, Hash)]
pub enum Datum {
    /// Null value
    Null,
    /// Boolean value
    Boolean(bool),
    /// 32-bit signed integer
    Int(i32),
    /// 64-bit signed integer
    Long(i64),
    /// 32-bit IEEE 754 floating point, by its bit pattern
    Float(u32),
    /// 64-bit IEEE 754 floating point, by its bit pattern
    Double(u64),
    /// Date (days from 1970-01-01)
    Date(i32),
    /// Time (microseconds from midnight)
    Time(i64),
    /// Timestamp without timezone (microseconds from the epoch)
    Timestamp(i64),
    /// Timestamp with timezone (microseconds from the epoch, UTC)
    TimestampTz(i64),
    /// Timestamp (nanoseconds from the epoch)
    TimestampNanos(i64),
    /// Timestamp with timezone (nanoseconds)
    TimestampTzNanos(i64),
    /// UTF-8 string
    String(String),
    /// UUID
    Uuid([u8; 16]),
    /// Fixed-length byte array
    Fixed(Vec<u8>),
    /// Variable-length byte array
    Binary(Vec<u8>),
    /// Decimal with precision and scale
    Decimal {
        /// Unscaled value as bytes (big-endian two's complement)
        value: Vec<u8>,
        /// Precision
        precision: u8,
        /// Scale
        scale: u8,
    },
}

/// The mathematical content of a [`Datum`].
pub enum DatumView {
    Null,
    Boolean(bool),
    Int(i32),
    Long(i64),
    Float(u32),
    Double(u64),
    Date(i32),
    Time(i64),
    Timestamp(i64),
    TimestampTz(i64),
    TimestampNanos(i64),
    TimestampTzNanos(i64),
    String(Seq<char>),
    Uuid(Seq<u8>),
    Fixed(Seq<u8>),
    Binary(Seq<u8>),
    Decimal { value: Seq<u8>, precision: u8, scale: u8 },
}

impl View for Datum {
    type V = DatumView;

    open spec fn view(&self) -> DatumView {
        match self {
            Datum::Null => DatumView::Null,
            Datum::Boolean(v) => DatumView::Boolean(*v),
            Datum::Int(v) => DatumView::Int(*v),
            Datum::Long(v) => DatumView::Long(*v),
            Datum::Float(v) => DatumView::Float(*v),
            Datum::Double(v) => DatumView::Double(*v),
            Datum::Date(v) => DatumView::Date(*v),
            Datum::Time(v) => DatumView::Time(*v),
            Datum::Timestamp(v) => DatumView::Timestamp(*v),
            Datum::TimestampTz(v) => DatumView::TimestampTz(*v),
            Datum::TimestampNanos(v) => DatumView::TimestampNanos(*v),
            Datum::TimestampTzNanos(v) => DatumView::TimestampTzNanos(*v),
            Datum::String(v) => DatumView::String(v@),
            Datum::Uuid(v) => DatumView::Uuid(v@),
            Datum::Fixed(v) => DatumView::Fixed(v@),
            Datum::Binary(v) => DatumView::Binary(v@),
            Datum::Decimal { value, precision, scale } => DatumView::Decimal {
                value: value@,
                precision: *precision,
                scale: *scale,
            },
        }
    }
}

// ---------------------------------------------------------------------------
// IEEE-754 bit patterns
// ---------------------------------------------------------------------------

/// Whether a `float` bit pattern is a NaN.
pub open spec fn f32_is_nan(b: u32) -> bool {
    (b & 0x7fff_ffffu32) > 0x7f80_0000u32
}

/// Whether a `double` bit pattern is a NaN.
pub open spec fn f64_is_nan(b: u64) -> bool {
    (b & 0x7fff_ffff_ffff_ffffu64) > 0x7ff0_0000_0000_0000u64
}

/// A number that orders non-NaN `float` bit patterns as their values are ordered:
/// the magnitude bits, negated for a set sign bit (so both zeros map to 0).
pub open spec fn f32_key(b: u32) -> int {
    if (b >> 31u32) == 0 {
        (b & 0x7fff_ffffu32) as int
    } else {
        -((b & 0x7fff_ffffu32) as int)
    }
}

/// A number that orders non-NaN `double` bit patterns as their values are ordered.
pub open spec fn f64_key(b: u64) -> int {
    if (b >> 63u64) == 0 {
        (b & 0x7fff_ffff_ffff_ffffu64) as int
    } else {
        -((b & 0x7fff_ffff_ffff_ffffu64) as int)
    }
}

/// The index of the highest set bit of `m` at or below position `p` (0 when none is set).
pub open spec fn top_set_bit(m: u32, p: u32) -> u32
    decreases p,
{
    if p == 0 || (m >> p) & 1u32 == 1u32 {
        p
    } else {
        top_set_bit(m, (p - 1) as u32)
    }
}

/// The `double` bit pattern of the value of a `float` bit pattern (the exact widening
/// conversion; a NaN stays a quiet NaN with its payload).
pub open spec fn widen_f32(b: u32) -> u64 {
    let sign = ((b >> 31u32) as u64) << 63u64;
    let exp = (b >> 23u32) & 0xffu32;
    let man = b & 0x7f_ffffu32;
    if exp == 0xffu32 {
        if man == 0 {
            sign | 0x7ff0_0000_0000_0000u64
        } else {
            sign | 0x7ff8_0000_0000_0000u64 | ((man as u64) << 29u64)
        }
    } else if exp == 0 {
        if man == 0 {
            sign
        } else {
            let p = top_set_bit(man, 22);
            sign | ((((p as u64) + 874) as u64) << 52u64) | (((man as u64) ^ (1u64 << (p as u64))) << ((52 - p) as u64))
        }
    } else {
        sign | ((((exp as u64) + 896) as u64) << 52u64) | ((man as u64) << 29u64)
    }
}

/// The `double` bit pattern of the value of a `float` bit pattern.
pub fn widen_f32_bits(b: u32) -> (r: u64)
    ensures
        r == widen_f32(b),
{
    let sign = ((b >> 31u32) as u64) << 63u64;
    let exp = (b >> 23u32) & 0xffu32;
    let man = b & 0x7f_ffffu32;
    if exp == 0xffu32 {
        if man == 0 {
            sign | 0x7ff0_0000_0000_0000u64
        } else {
            sign | 0x7ff8_0000_0000_0000u64 | ((man as u64) << 29u64)
        }
    } else if exp == 0 {
        if man == 0 {
            sign
        } else {
            let mut p: u32 = 22;
            while p > 0 && (man >> p) & 1u32 != 1u32
                invariant
                    p <= 22,
                    top_set_bit(man, 22) == top_set_bit(man, p),
                decreases p,
            {
                p = p - 1;
            }
            assert(top_set_bit(man, p) == p);
            sign | ((((p as u64) + 874) as u64) << 52u64) | (((man as u64) ^ (1u64 << (p as u64)))
                << ((52 - p) as u64))
        }
    } else {
        sign | ((((exp as u64) + 896) as u64) << 52u64) | ((man as u64) << 29u64)
    }
}

// ---------------------------------------------------------------------------
// Comparison
// ---------------------------------------------------------------------------

/// -1, 0 or 1 as `a` is below, equal to or above `b`.
pub open spec fn sign_code(a: int, b: int) -> int {
    if a < b {
        -1
    } else if a == b {
        0
    } else {
        1
    }
}

/// Lexicographic comparison of byte sequences, as -1, 0 or 1.
pub open spec fn bytes_lex(a: Seq<u8>, b: Seq<u8>) -> int
    decreases a.len(),
{
    if a.len() == 0 {
        if b.len() == 0 {
            0
        } else {
            -1
        }
    } else if b.len() == 0 {
        1
    } else if a[0] != b[0] {
        sign_code(a[0] as int, b[0] as int)
    } else {
        bytes_lex(a.drop_first(), b.drop_first())
    }
}

/// Lexicographic comparison of character sequences by code point, as -1, 0 or 1
/// (the same order as the byte-wise order of their UTF-8 encodings).
pub open spec fn chars_lex(a: Seq<char>, b: Seq<char>) -> int
    decreases a.len(),
{
    if a.len() == 0 {
        if b.len() == 0 {
            0
        } else {
            -1
        }
    } else if b.len() == 0 {
        1
    } else if a[0] != b[0] {
        sign_code(a[0] as int, b[0] as int)
    } else {
        chars_lex(a.drop_first(), b.drop_first())
    }
}

/// Whether a value is a NaN.
pub open spec fn datum_is_nan(d: DatumView) -> bool {
    match d {
        DatumView::Float(b) => f32_is_nan(b),
        DatumView::Double(b) => f64_is_nan(b),
        _ => false,
    }
}

/// The comparison of two values as -1, 0 or 1: null is below every other value and
/// equal to null; a NaN is comparable to nothing but null; `int` and `long`, `float` and
/// `double`, `binary` and `fixed` compare across their types; other values compare only
/// within their own type, decimals by their unscaled bytes alone.
pub open spec fn datum_order_code(a: DatumView, b: DatumView) -> Option<int> {
    match (a, b) {
        (DatumView::Null, DatumView::Null) => Some(0),
        (DatumView::Null, _) => Some(-1),
        (_, DatumView::Null) => Some(1),
        _ => if datum_is_nan(a) || datum_is_nan(b) {
            None
        } else {
            match (a, b) {
                (DatumView::Boolean(x), DatumView::Boolean(y)) => Some(
                    sign_code(if x { 1 } else { 0 }, if y { 1 } else { 0 }),
                ),
                (DatumView::Int(x), DatumView::Int(y)) => Some(sign_code(x as int, y as int)),
                (DatumView::Int(x), DatumView::Long(y)) => Some(sign_code(x as int, y as int)),
                (DatumView::Long(x), DatumView::Int(y)) => Some(sign_code(x as int, y as int)),
                (DatumView::Long(x), DatumView::Long(y)) => Some(sign_code(x as int, y as int)),
                (DatumView::Float(x), DatumView::Float(y)) => Some(sign_code(f32_key(x), f32_key(y))),
                (DatumView::Float(x), DatumView::Double(y)) => Some(
                    sign_code(f64_key(widen_f32(x)), f64_key(y)),
                ),
                (DatumView::Double(x), DatumView::Float(y)) => Some(
                    sign_code(f64_key(x), f64_key(widen_f32(y))),
                ),
                (DatumView::Double(x), DatumView::Double(y)) => Some(sign_code(f64_key(x), f64_key(y))),
                (DatumView::Date(x), DatumView::Date(y)) => Some(sign_code(x as int, y as int)),
                (DatumView::Time(x), DatumView::Time(y)) => Some(sign_code(x as int, y as int)),
                (DatumView::Timestamp(x), DatumView::Timestamp(y)) => Some(sign_code(x as int, y as int)),
                (DatumView::TimestampTz(x), DatumView::TimestampTz(y)) => Some(
                    sign_code(x as int, y as int),
                ),
                (DatumView::TimestampNanos(x), DatumView::TimestampNanos(y)) => Some(
                    sign_code(x as int, y as int),
                ),
                (DatumView::TimestampTzNanos(x), DatumView::TimestampTzNanos(y)) => Some(
                    sign_code(x as int, y as int),
                ),
                (DatumView::String(x), DatumView::String(y)) => Some(chars_lex(x, y)),
                (DatumView::Uuid(x), DatumView::Uuid(y)) => Some(bytes_lex(x, y)),
                (DatumView::Binary(x), DatumView::Binary(y)) => Some(bytes_lex(x, y)),
                (DatumView::Fixed(x), DatumView::Fixed(y)) => Some(bytes_lex(x, y)),
                (DatumView::Binary(x), DatumView::Fixed(y)) => Some(bytes_lex(x, y)),
                (DatumView::Fixed(x), DatumView::Binary(y)) => Some(bytes_lex(x, y)),
                (DatumView::Decimal { value: x, .. }, DatumView::Decimal { value: y, .. }) => Some(
                    bytes_lex(x, y),
                ),
                _ => None,
            }
        },
    }
}

/// Whether two values compare equal.
pub open spec fn datum_equals(a: DatumView, b: DatumView) -> bool {
    datum_order_code(a, b) == Some(0int)
}

proof fn lemma_bytes_lex_range(a: Seq<u8>, b: Seq<u8>)
    ensures
        bytes_lex(a, b) == -1 || bytes_lex(a, b) == 0 || bytes_lex(a, b) == 1,
    decreases a.len(),
{
    if a.len() > 0 && b.len() > 0 && a[0] == b[0] {
        lemma_bytes_lex_range(a.drop_first(), b.drop_first());
    }
}

proof fn lemma_chars_lex_range(a: Seq<char>, b: Seq<char>)
    ensures
        chars_lex(a, b) == -1 || chars_lex(a, b) == 0 || chars_lex(a, b) == 1,
    decreases a.len(),
{
    if a.len() > 0 && b.len() > 0 && a[0] == b[0] {
        lemma_chars_lex_range(a.drop_first(), b.drop_first());
    }
}

/// A comparison of two values, where they compare, is one of -1, 0 and 1.
pub proof fn lemma_order_code_range(a: DatumView, b: DatumView)
    ensures
        datum_order_code(a, b) matches Some(c) ==> (c == -1 || c == 0 || c == 1),
{
    match (a, b) {
        (DatumView::String(x), DatumView::String(y)) => lemma_chars_lex_range(x, y),
        (DatumView::Uuid(x), DatumView::Uuid(y)) => lemma_bytes_lex_range(x, y),
        (DatumView::Binary(x), DatumView::Binary(y)) => lemma_bytes_lex_range(x, y),
        (DatumView::Fixed(x), DatumView::Fixed(y)) => lemma_bytes_lex_range(x, y),
        (DatumView::Binary(x), DatumView::Fixed(y)) => lemma_bytes_lex_range(x, y),
        (DatumView::Fixed(x), DatumView::Binary(y)) => lemma_bytes_lex_range(x, y),
        (DatumView::Decimal { value: x, .. }, DatumView::Decimal { value: y, .. }) => lemma_bytes_lex_range(x, y),
        _ => {},
    }
}

proof fn lemma_bytes_lex_antisymmetric(a: Seq<u8>, b: Seq<u8>)
    ensures
        bytes_lex(a, b) == -bytes_lex(b, a),
    decreases a.len(),
{
    if a.len() > 0 && b.len() > 0 && a[0] == b[0] {
        lemma_bytes_lex_antisymmetric(a.drop_first(), b.drop_first());
    }
}

proof fn lemma_chars_lex_antisymmetric(a: Seq<char>, b: Seq<char>)
    ensures
        chars_lex(a, b) == -chars_lex(b, a),
    decreases a.len(),
{
    if a.len() > 0 && b.len() > 0 && a[0] == b[0] {
        lemma_chars_lex_antisymmetric(a.drop_first(), b.drop_first());
    }
}

/// Comparing two values the other way round gives the opposite order; values that do
/// not compare one way do not compare the other way either.
pub proof fn lemma_compare_antisymmetric(a: DatumView, b: DatumView)
    ensures
        match datum_order_code(a, b) {
            Some(c) => datum_order_code(b, a) == Some(-c),
            None => datum_order_code(b, a) is None,
        },
{
    match (a, b) {
        (DatumView::String(x), DatumView::String(y)) => lemma_chars_lex_antisymmetric(x, y),
        (DatumView::Uuid(x), DatumView::Uuid(y)) => lemma_bytes_lex_antisymmetric(x, y),
        (DatumView::Binary(x), DatumView::Binary(y)) => lemma_bytes_lex_antisymmetric(x, y),
        (DatumView::Fixed(x), DatumView::Fixed(y)) => lemma_bytes_lex_antisymmetric(x, y),
        (DatumView::Binary(x), DatumView::Fixed(y)) => lemma_bytes_lex_antisymmetric(x, y),
        (DatumView::Fixed(x), DatumView::Binary(y)) => lemma_bytes_lex_antisymmetric(x, y),
        (DatumView::Decimal { value: x, .. }, DatumView::Decimal { value: y, .. }) => lemma_bytes_lex_antisymmetric(x, y),
        _ => {},
    }
}

/// Whether two byte sequences are the same.
pub fn bytes_eq(a: &[u8], b: &[u8]) -> (r: bool)
    ensures
        r == (a@ == b@),
{
    if a.len() != b.len() {
        return false;
    }
    let mut i: usize = 0;
    while i < a.len()
        invariant
            i <= a.len() == b.len(),
            a@.take(i as int) == b@.take(i as int),
        decreases a.len() - i,
    {
        if a[i] != b[i] {
            assert(a@[i as int] != b@[i as int]);
            return false;
        }
        i = i + 1;
        assert(a@.take(i as int) =~= a@.take(i - 1).push(a@[i - 1]));
        assert(b@.take(i as int) =~= b@.take(i - 1).push(b@[i - 1]));
    }
    assert(a@ =~= a@.take(i as int));
    assert(b@ =~= b@.take(i as int));
    true
}

/// -1, 0 or 1 as two byte sequences compare.
pub fn bytes_compare(a: &[u8], b: &[u8]) -> (r: i8)
    ensures
        r as int == bytes_lex(a@, b@),
{
    let mut i: usize = 0;
    assert(a@.skip(0) =~= a@);
    assert(b@.skip(0) =~= b@);
    while i < a.len() && i < b.len()
        invariant
            i <= a.len(),
            i <= b.len(),
            bytes_lex(a@, b@) == bytes_lex(a@.skip(i as int), b@.skip(i as int)),
        decreases a.len() - i,
    {
        let ghost sa = a@.skip(i as int);
        let ghost sb = b@.skip(i as int);
        assert(sa[0] == a@[i as int] && sb[0] == b@[i as int]);
        if a[i] < b[i] {
            return -1;
        }
        if a[i] > b[i] {
            return 1;
        }
        assert(sa.drop_first() =~= a@.skip(i + 1));
        assert(sb.drop_first() =~= b@.skip(i + 1));
        i = i + 1;
    }
    if i < a.len() {
        1
    } else if i < b.len() {
        -1
    } else {
        0
    }
}

/// -1, 0 or 1 as two character sequences compare.
pub fn chars_compare(a: &Vec<char>, b: &Vec<char>) -> (r: i8)
    ensures
        r as int == chars_lex(a@, b@),
{
    let mut i: usize = 0;
    assert(a@.skip(0) =~= a@);
    assert(b@.skip(0) =~= b@);
    while i < a.len() && i < b.len()
        invariant
            i <= a.len(),
            i <= b.len(),
            chars_lex(a@, b@) == chars_lex(a@.skip(i as int), b@.skip(i as int)),
        decreases a.len() - i,
    {
        let ghost sa = a@.skip(i as int);
        let ghost sb = b@.skip(i as int);
        assert(sa[0] == a@[i as int] && sb[0] == b@[i as int]);
        if a[i] < b[i] {
            return -1;
        }
        if a[i] > b[i] {
            return 1;
        }
        assert(sa.drop_first() =~= a@.skip(i + 1));
        assert(sb.drop_first() =~= b@.skip(i + 1));
        i = i + 1;
    }
    if i < a.len() {
        1
    } else if i < b.len() {
        -1
    } else {
        0
    }
}

fn int_code(a: i64, b: i64) -> (r: i8)
    ensures
        r as int == sign_code(a as int, b as int),
{
    if a < b {
        -1
    } else if a == b {
        0
    } else {
        1
    }
}

fn widen_i32(a: i32) -> (r: i64)
    ensures
        r as int == a as int,
{
    a as i64
}

/// The magnitude bits of a `float`, and whether its sign bit is set.
fn f32_code(a: u32, b: u32) -> (r: i8)
    ensures
        r as int == sign_code(f32_key(a), f32_key(b)),
{
    let ka = f32_signed(a);
    let kb = f32_signed(b);
    int_code(ka, kb)
}

fn f32_signed(a: u32) -> (r: i64)
    ensures
        r as int == f32_key(a),
{
    let m = (a & 0x7fff_ffffu32) as i64;
    if (a >> 31u32) == 0 {
        m
    } else {
        -m
    }
}

fn f64_code(a: u64, b: u64) -> (r: i8)
    ensures
        r as int == sign_code(f64_key(a), f64_key(b)),
{
    let ma = (a & 0x7fff_ffff_ffff_ffffu64) as i128;
    let mb = (b & 0x7fff_ffff_ffff_ffffu64) as i128;
    let ka: i128 = if (a >> 63u64) == 0 {
        ma
    } else {
        -ma
    };
    let kb: i128 = if (b >> 63u64) == 0 {
        mb
    } else {
        -mb
    };
    if ka < kb {
        -1
    } else if ka == kb {
        0
    } else {
        1
    }
}

fn bool_code(a: bool, b: bool) -> (r: i8)
    ensures
        r as int == sign_code(if a { 1 } else { 0 }, if b { 1 } else { 0 }),
{
    if a == b {
        0
    } else if !a {
        -1
    } else {
        1
    }
}

/// The comparison of two values as -1, 0 or 1 (see [`datum_order_code`]).
pub fn compare_code(a: &Datum, b: &Datum) -> (r: Option<i8>)
    ensures
        match r {
            Some(c) => datum_order_code(a@, b@) == Some(c as int),
            None => datum_order_code(a@, b@) is None,
        },
{
    match (a, b) {
        (Datum::Null, Datum::Null) => return Some(0),
        (Datum::Null, _) => return Some(-1),
        (_, Datum::Null) => return Some(1),
        _ => {},
    }
    if a.is_nan() || b.is_nan() {
        return None;
    }
    match (a, b) {
        (Datum::Boolean(x), Datum::Boolean(y)) => Some(bool_code(*x, *y)),
        (Datum::Int(x), Datum::Int(y)) => Some(int_code(widen_i32(*x), widen_i32(*y))),
        (Datum::Int(x), Datum::Long(y)) => Some(int_code(widen_i32(*x), *y)),
        (Datum::Long(x), Datum::Int(y)) => Some(int_code(*x, widen_i32(*y))),
        (Datum::Long(x), Datum::Long(y)) => Some(int_code(*x, *y)),
        (Datum::Float(x), Datum::Float(y)) => Some(f32_code(*x, *y)),
        (Datum::Float(x), Datum::Double(y)) => Some(f64_code(widen_f32_bits(*x), *y)),
        (Datum::Double(x), Datum::Float(y)) => Some(f64_code(*x, widen_f32_bits(*y))),
        (Datum::Double(x), Datum::Double(y)) => Some(f64_code(*x, *y)),
        (Datum::Date(x), Datum::Date(y)) => Some(int_code(widen_i32(*x), widen_i32(*y))),
        (Datum::Time(x), Datum::Time(y)) => Some(int_code(*x, *y)),
        (Datum::Timestamp(x), Datum::Timestamp(y)) => Some(int_code(*x, *y)),
        (Datum::TimestampTz(x), Datum::TimestampTz(y)) => Some(int_code(*x, *y)),
        (Datum::TimestampNanos(x), Datum::TimestampNanos(y)) => Some(int_code(*x, *y)),
        (Datum::TimestampTzNanos(x), Datum::TimestampTzNanos(y)) => Some(int_code(*x, *y)),
        (Datum::String(x), Datum::String(y)) => {
            let cx = chars_of(x.as_str());
            let cy = chars_of(y.as_str());
            Some(chars_compare(&cx, &cy))
        },
        (Datum::Uuid(x), Datum::Uuid(y)) => Some(bytes_compare(x.as_slice(), y.as_slice())),
        (Datum::Binary(x), Datum::Binary(y)) => Some(bytes_compare(x.as_slice(), y.as_slice())),
        (Datum::Fixed(x), Datum::Fixed(y)) => Some(bytes_compare(x.as_slice(), y.as_slice())),
        (Datum::Binary(x), Datum::Fixed(y)) => Some(bytes_compare(x.as_slice(), y.as_slice())),
        (Datum::Fixed(x), Datum::Binary(y)) => Some(bytes_compare(x.as_slice(), y.as_slice())),
        (Datum::Decimal { value: x, .. }, Datum::Decimal { value: y, .. }) => Some(
            bytes_compare(x.as_slice(), y.as_slice()),
        ),
        _ => None,
    }
}


/// The ordering that a comparison code stands for.
pub open spec fn ordering_of(c: Option<int>) -> Option<Ordering> {
    match c {
        Some(x) => if x < 0 {
            Some(Ordering::Less)
        } else if x == 0 {
            Some(Ordering::Equal)
        } else {
            Some(Ordering::Greater)
        },
        None => None,
    }
}

/// The name of the type of a value.
pub open spec fn datum_type_name(d: DatumView) -> Seq<char> {
    match d {
        DatumView::Null => "null"@,
        DatumView::Boolean(_) => "boolean"@,
        DatumView::Int(_) => "int"@,
        DatumView::Long(_) => "long"@,
        DatumView::Float(_) => "float"@,
        DatumView::Double(_) => "double"@,
        DatumView::Date(_) => "date"@,
        DatumView::Time(_) => "time"@,
        DatumView::Timestamp(_) => "timestamp"@,
        DatumView::TimestampTz(_) => "timestamptz"@,
        DatumView::TimestampNanos(_) => "timestamp_ns"@,
        DatumView::TimestampTzNanos(_) => "timestamptz_ns"@,
        DatumView::String(_) => "string"@,
        DatumView::Uuid(_) => "uuid"@,
        DatumView::Fixed(_) => "fixed"@,
        DatumView::Binary(_) => "binary"@,
        DatumView::Decimal { .. } => "decimal"@,
    }
}

fn copy_bytes(v: &Vec<u8>) -> (r: Vec<u8>)
    ensures
        r@ == v@,
{
    let mut r: Vec<u8> = Vec::new();
    let mut i: usize = 0;
    while i < v.len()
        invariant
            i <= v.len(),
            r@ == v@.take(i as int),
        decreases v.len() - i,
    {
        r.push(v[i]);
        i = i + 1;
        assert(v@.take(i as int) == v@.take(i - 1).push(v@[i - 1]));
    }
    assert(v@.take(v.len() as int) == v@);
    r
}

impl Datum {
    /// Create a null datum.
    pub fn null() -> (r: Datum)
        ensures
            r@ == DatumView::Null,
    {
        Datum::Null
    }

    /// Create a boolean datum.
    pub fn boolean(value: bool) -> (r: Datum)
        ensures
            r@ == DatumView::Boolean(value),
    {
        Datum::Boolean(value)
    }

    /// Create an integer datum.
    pub fn int32(value: i32) -> (r: Datum)
        ensures
            r@ == DatumView::Int(value),
    {
        Datum::Int(value)
    }

    /// Create a long datum.
    pub fn long(value: i64) -> (r: Datum)
        ensures
            r@ == DatumView::Long(value),
    {
        Datum::Long(value)
    }

    /// Create a float datum from the IEEE-754 bits of the value.
    pub fn float(bits: u32) -> (r: Datum)
        ensures
            r@ == DatumView::Float(bits),
    {
        Datum::Float(bits)
    }

    /// Create a double datum from the IEEE-754 bits of the value.
    pub fn double(bits: u64) -> (r: Datum)
        ensures
            r@ == DatumView::Double(bits),
    {
        Datum::Double(bits)
    }

    /// Create a date datum (days from epoch).
    pub fn date(days: i32) -> (r: Datum)
        ensures
            r@ == DatumView::Date(days),
    {
        Datum::Date(days)
    }

    /// Create a time datum (microseconds from midnight).
    pub fn time(micros: i64) -> (r: Datum)
        ensures
            r@ == DatumView::Time(micros),
    {
        Datum::Time(micros)
    }

    /// Create a timestamp datum (microseconds from epoch).
    pub fn timestamp(micros: i64) -> (r: Datum)
        ensures
            r@ == DatumView::Timestamp(micros),
    {
        Datum::Timestamp(micros)
    }

    /// Create a timestamp with timezone datum.
    pub fn timestamp_tz(micros: i64) -> (r: Datum)
        ensures
            r@ == DatumView::TimestampTz(micros),
    {
        Datum::TimestampTz(micros)
    }

    /// Create a string datum.
    pub fn string(value: &str) -> (r: Datum)
        ensures
            r@ == DatumView::String(value@),
    {
        Datum::String(owned(value))
    }

    /// Create a UUID datum.
    pub fn uuid(bytes: [u8; 16]) -> (r: Datum)
        ensures
            r@ == DatumView::Uuid(bytes@),
    {
        Datum::Uuid(bytes)
    }

    /// Create a fixed-length binary datum.
    pub fn fixed(value: Vec<u8>) -> (r: Datum)
        ensures
            r@ == DatumView::Fixed(value@),
    {
        Datum::Fixed(value)
    }

    /// Create a variable-length binary datum.
    pub fn binary(value: Vec<u8>) -> (r: Datum)
        ensures
            r@ == DatumView::Binary(value@),
    {
        Datum::Binary(value)
    }

    /// Create a decimal datum.
    pub fn decimal(value: Vec<u8>, precision: u8, scale: u8) -> (r: Datum)
        ensures
            r@ == (DatumView::Decimal { value: value@, precision, scale }),
    {
        Datum::Decimal { value, precision, scale }
    }

    /// A UUID value from its text, such as `550e8400-e29b-41d4-a716-446655440000`:
    /// dashes are dropped and the 32 characters left are read as 16 bytes in base 16.
    pub fn uuid_from_str(s: &str) -> (r: Option<Datum>)
        ensures
            match uuid_text_bytes(s@) {
                Some(b) => r matches Some(d) && d@ == DatumView::Uuid(b),
                None => r is None,
            },
    {
        match parse_uuid_text(s) {
            Some(bytes) => Some(Datum::Uuid(bytes)),
            None => None,
        }
    }

    /// A copy of this datum with the same content.
    pub fn duplicate(&self) -> (r: Datum)
        ensures
            r@ == self@,
    {
        match self {
            Datum::Null => Datum::Null,
            Datum::Boolean(v) => Datum::Boolean(*v),
            Datum::Int(v) => Datum::Int(*v),
            Datum::Long(v) => Datum::Long(*v),
            Datum::Float(v) => Datum::Float(*v),
            Datum::Double(v) => Datum::Double(*v),
            Datum::Date(v) => Datum::Date(*v),
            Datum::Time(v) => Datum::Time(*v),
            Datum::Timestamp(v) => Datum::Timestamp(*v),
            Datum::TimestampTz(v) => Datum::TimestampTz(*v),
            Datum::TimestampNanos(v) => Datum::TimestampNanos(*v),
            Datum::TimestampTzNanos(v) => Datum::TimestampTzNanos(*v),
            Datum::String(v) => Datum::String(copy_string(v)),
            Datum::Uuid(v) => Datum::Uuid(*v),
            Datum::Fixed(v) => Datum::Fixed(copy_bytes(v)),
            Datum::Binary(v) => Datum::Binary(copy_bytes(v)),
            Datum::Decimal { value, precision, scale } => Datum::Decimal {
                value: copy_bytes(value),
                precision: *precision,
                scale: *scale,
            },
        }
    }

    /// Whether two data have the same variant and the same content (bit patterns for
    /// floating-point values).
    pub fn identical(&self, other: &Datum) -> (r: bool)
        ensures
            r == (self@ == other@),
    {
        match (self, other) {
            (Datum::Null, Datum::Null) => true,
            (Datum::Boolean(a), Datum::Boolean(b)) => *a == *b,
            (Datum::Int(a), Datum::Int(b)) => *a == *b,
            (Datum::Long(a), Datum::Long(b)) => *a == *b,
            (Datum::Float(a), Datum::Float(b)) => *a == *b,
            (Datum::Double(a), Datum::Double(b)) => *a == *b,
            (Datum::Date(a), Datum::Date(b)) => *a == *b,
            (Datum::Time(a), Datum::Time(b)) => *a == *b,
            (Datum::Timestamp(a), Datum::Timestamp(b)) => *a == *b,
            (Datum::TimestampTz(a), Datum::TimestampTz(b)) => *a == *b,
            (Datum::TimestampNanos(a), Datum::TimestampNanos(b)) => *a == *b,
            (Datum::TimestampTzNanos(a), Datum::TimestampTzNanos(b)) => *a == *b,
            (Datum::String(a), Datum::String(b)) => crate::text::str_eq(a.as_str(), b.as_str()),
            (Datum::Uuid(a), Datum::Uuid(b)) => bytes_eq(a.as_slice(), b.as_slice()),
            (Datum::Fixed(a), Datum::Fixed(b)) => bytes_eq(a.as_slice(), b.as_slice()),
            (Datum::Binary(a), Datum::Binary(b)) => bytes_eq(a.as_slice(), b.as_slice()),
            (
                Datum::Decimal { value: a, precision: pa, scale: sa },
                Datum::Decimal { value: b, precision: pb, scale: sb },
            ) => *pa == *pb && *sa == *sb && bytes_eq(a.as_slice(), b.as_slice()),
            _ => false,
        }
    }

    /// Check if this datum is null.
    pub fn is_null(&self) -> (r: bool)
        ensures
            r == (self@ is Null),
    {
        match self {
            Datum::Null => true,
            _ => false,
        }
    }

    /// Check if this datum is NaN.
    pub fn is_nan(&self) -> (r: bool)
        ensures
            r == datum_is_nan(self@),
    {
        match self {
            Datum::Float(f) => (*f & 0x7fff_ffffu32) > 0x7f80_0000u32,
            Datum::Double(d) => (*d & 0x7fff_ffff_ffff_ffffu64) > 0x7ff0_0000_0000_0000u64,
            _ => false,
        }
    }

    /// Get the type name.
    pub fn type_str(&self) -> (r: &'static str)
        ensures
            r@ == datum_type_name(self@),
    {
        match self {
            Datum::Null => "null",
            Datum::Boolean(_) => "boolean",
            Datum::Int(_) => "int",
            Datum::Long(_) => "long",
            Datum::Float(_) => "float",
            Datum::Double(_) => "double",
            Datum::Date(_) => "date",
            Datum::Time(_) => "time",
            Datum::Timestamp(_) => "timestamp",
            Datum::TimestampTz(_) => "timestamptz",
            Datum::TimestampNanos(_) => "timestamp_ns",
            Datum::TimestampTzNanos(_) => "timestamptz_ns",
            Datum::String(_) => "string",
            Datum::Uuid(_) => "uuid",
            Datum::Fixed(_) => "fixed",
            Datum::Binary(_) => "binary",
            Datum::Decimal { .. } => "decimal",
        }
    }

    /// Get as boolean.
    pub fn as_boolean(&self) -> (r: Option<bool>)
        ensures
            r == (match self@ {
                DatumView::Boolean(v) => Some(v),
                _ => None::<bool>,
            }),
    {
        match self {
            Datum::Boolean(v) => Some(*v),
            _ => None,
        }
    }

    /// Get as i32.
    pub fn as_int(&self) -> (r: Option<i32>)
        ensures
            r == (match self@ {
                DatumView::Int(v) => Some(v),
                _ => None::<i32>,
            }),
    {
        match self {
            Datum::Int(v) => Some(*v),
            _ => None,
        }
    }

    /// Get as i64 (an `int` is widened).
    pub fn as_long(&self) -> (r: Option<i64>)
        ensures
            r == (match self@ {
                DatumView::Long(v) => Some(v),
                DatumView::Int(v) => Some(v as i64),
                _ => None::<i64>,
            }),
    {
        match self {
            Datum::Long(v) => Some(*v),
            Datum::Int(v) => Some(*v as i64),
            _ => None,
        }
    }

    /// Get the bits of a float value.
    pub fn as_float(&self) -> (r: Option<u32>)
        ensures
            r == (match self@ {
                DatumView::Float(v) => Some(v),
                _ => None::<u32>,
            }),
    {
        match self {
            Datum::Float(v) => Some(*v),
            _ => None,
        }
    }

    /// Get the bits of a double value (a float is widened exactly).
    pub fn as_double(&self) -> (r: Option<u64>)
        ensures
            r == (match self@ {
                DatumView::Double(v) => Some(v),
                DatumView::Float(v) => Some(widen_f32(v)),
                _ => None::<u64>,
            }),
    {
        match self {
            Datum::Double(v) => Some(*v),
            Datum::Float(v) => Some(widen_f32_bits(*v)),
            _ => None,
        }
    }

    /// Get as string reference.
    pub fn as_str(&self) -> (r: Option<&str>)
        ensures
            match self@ {
                DatumView::String(v) => r is Some && r->0@ == v,
                _ => r is None,
            },
    {
        match self {
            Datum::String(v) => Some(v.as_str()),
            _ => None,
        }
    }

    /// Get as bytes reference (binary and fixed values).
    pub fn as_bytes(&self) -> (r: Option<&[u8]>)
        ensures
            match self@ {
                DatumView::Binary(v) => r is Some && r->0@ == v,
                DatumView::Fixed(v) => r is Some && r->0@ == v,
                _ => r is None,
            },
    {
        match self {
            Datum::Binary(v) => Some(v.as_slice()),
            Datum::Fixed(v) => Some(v.as_slice()),
            _ => None,
        }
    }

    /// Compare two datums; `None` when the types are incompatible or either is NaN.
    pub fn compare(&self, other: &Datum) -> (r: Option<Ordering>)
        ensures
            r == ordering_of(datum_order_code(self@, other@)),
    {
        match compare_code(self, other) {
            Some(c) => if c < 0 {
                Some(Ordering::Less)
            } else if c == 0 {
                Some(Ordering::Equal)
            } else {
                Some(Ordering::Greater)
            },
            None => None,
        }
    }

    /// Check if two datums are equal.
    pub fn equals(&self, other: &Datum) -> (r: bool)
        ensures
            r == datum_equals(self@, other@),
    {
        match compare_code(self, other) {
            Some(c) => c == 0,
            None => false,
        }
    }
}

impl PartialEq for Datum {
    fn eq(&self, other: &Self) -> (r: bool) {
        self.equals(other)
    }
}

impl Eq for Datum {
}

impl vstd::std_specs::cmp::PartialEqSpecImpl for Datum {
    open spec fn obeys_eq_spec() -> bool {
        true
    }

    open spec fn eq_spec(&self, other: &Datum) -> bool {
        datum_equals(self@, other@)
    }
}

impl From<bool> for Datum {
    fn from(v: bool) -> (r: Datum) {
        Datum::Boolean(v)
    }
}

impl vstd::std_specs::convert::FromSpecImpl<bool> for Datum {
    open spec fn obeys_from_spec() -> bool {
        true
    }

    open spec fn from_spec(v: bool) -> Datum {
        Datum::Boolean(v)
    }
}

impl From<i32> for Datum {
    fn from(v: i32) -> (r: Datum) {
        Datum::Int(v)
    }
}

impl vstd::std_specs::convert::FromSpecImpl<i32> for Datum {
    open spec fn obeys_from_spec() -> bool {
        true
    }

    open spec fn from_spec(v: i32) -> Datum {
        Datum::Int(v)
    }
}

impl From<i64> for Datum {
    fn from(v: i64) -> (r: Datum) {
        Datum::Long(v)
    }
}

impl vstd::std_specs::convert::FromSpecImpl<i64> for Datum {
    open spec fn obeys_from_spec() -> bool {
        true
    }

    open spec fn from_spec(v: i64) -> Datum {
        Datum::Long(v)
    }
}

impl From<String> for Datum {
    fn from(v: String) -> (r: Datum) {
        Datum::String(v)
    }
}

impl vstd::std_specs::convert::FromSpecImpl<String> for Datum {
    open spec fn obeys_from_spec() -> bool {
        true
    }

    open spec fn from_spec(v: String) -> Datum {
        Datum::String(v)
    }
}

impl From<Vec<u8>> for Datum {
    fn from(v: Vec<u8>) -> (r: Datum) {
        Datum::Binary(v)
    }
}

impl vstd::std_specs::convert::FromSpecImpl<Vec<u8>> for Datum {
    open spec fn obeys_from_spec() -> bool {
        true
    }

    open spec fn from_spec(v: Vec<u8>) -> Datum {
        Datum::Binary(v)
    }
}

} // verus!
