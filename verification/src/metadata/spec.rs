//! Partition specs and sort orders, and the transforms they apply to source values.
use vstd::prelude::*;
use super::murmur::{murmur3, murmur3_x86_32};
use vstd::utf8::encode_utf8;
use vstd::arithmetic::div_mod::{lemma_div_is_ordered, lemma_fundamental_div_mod, lemma_fundamental_div_mod_converse, lemma_mod_bound};
use crate::text::{decimal_digits, push_unsigned, copy_string, chars_of, str_eq, starts_with, ends_with, has_prefix, has_suffix, substring, parse_i32,
    parse_i32_value, int_decimal, push_str, push_char, push_decimal, lemma_parse_i32_of_decimal, owned};

verus! {

broadcast use vstd::string::group_string_axioms;

/// A partition transform.
#[derive(Debug, Clone, Copy, PartialEq, Eq, Structural)]
pub enum Transform {
    /// Identity transform (no transformation)
    Identity,
    /// Year from a date or timestamp
    Year,
    /// Month from a date or timestamp
    Month,
    /// Day from a date or timestamp
    Day,
    /// Hour from a timestamp
    Hour,
    /// Hash into the given number of buckets
    Bucket(i32),
    /// Truncate to the given width
    Truncate(i32),
    /// Void transform (always null)
    Void,
}

/// The number in `s` when it is `prefix`, a decimal `i32`, and `]`.
pub open spec fn bracketed(s: Seq<char>, prefix: Seq<char>) -> Option<i32> {
    if has_prefix(s, prefix) && s.len() >= prefix.len() + 1 && s.last() == ']' {
        parse_i32_value(s.subrange(prefix.len() as int, s.len() - 1))
    } else {
        None
    }
}

/// The transform a name stands for.
pub open spec fn transform_named(s: Seq<char>) -> Option<Transform> {
    if s == "identity"@ {
        Some(Transform::Identity)
    } else if s == "year"@ {
        Some(Transform::Year)
    } else if s == "month"@ {
        Some(Transform::Month)
    } else if s == "day"@ {
        Some(Transform::Day)
    } else if s == "hour"@ {
        Some(Transform::Hour)
    } else if s == "void"@ {
        Some(Transform::Void)
    } else if bracketed(s, "bucket["@) is Some {
        Some(Transform::Bucket(bracketed(s, "bucket["@)->0))
    } else if bracketed(s, "truncate["@) is Some {
        Some(Transform::Truncate(bracketed(s, "truncate["@)->0))
    } else {
        None
    }
}

/// The name of a transform.
pub open spec fn transform_text(t: Transform) -> Seq<char> {
    match t {
        Transform::Identity => "identity"@,
        Transform::Year => "year"@,
        Transform::Month => "month"@,
        Transform::Day => "day"@,
        Transform::Hour => "hour"@,
        Transform::Void => "void"@,
        Transform::Bucket(n) => "bucket["@ + int_decimal(n as int) + "]"@,
        Transform::Truncate(n) => "truncate["@ + int_decimal(n as int) + "]"@,
    }
}

/// The number between `prefix` and a closing `]`, when `s` has that shape.
fn bracketed_number(s: &str, prefix: &str) -> (r: Option<i32>)
    ensures
        r == bracketed(s@, prefix@),
{
    if !starts_with(s, prefix) {
        return None;
    }
    let cs = chars_of(s);
    let pl = chars_of(prefix).len();
    if cs.len() <= pl || cs[cs.len() - 1] != ']' {
        return None;
    }
    let middle = substring(&cs, pl, cs.len() - 1);
    parse_i32(middle.as_str())
}

impl Transform {
    /// The transform a name stands for: `identity`, `year`, `month`, `day`, `hour`,
    /// `void`, `bucket[N]` or `truncate[N]`.
    pub fn from_str(s: &str) -> (r: Option<Transform>)
        ensures
            r == transform_named(s@),
    {
        if str_eq(s, "identity") {
            return Some(Transform::Identity);
        }
        if str_eq(s, "year") {
            return Some(Transform::Year);
        }
        if str_eq(s, "month") {
            return Some(Transform::Month);
        }
        if str_eq(s, "day") {
            return Some(Transform::Day);
        }
        if str_eq(s, "hour") {
            return Some(Transform::Hour);
        }
        if str_eq(s, "void") {
            return Some(Transform::Void);
        }
        if let Some(n) = bracketed_number(s, "bucket[") {
            return Some(Transform::Bucket(n));
        }
        if let Some(n) = bracketed_number(s, "truncate[") {
            return Some(Transform::Truncate(n));
        }
        None
    }

    /// The name of this transform.
    pub fn to_string(&self) -> (r: String)
        ensures
            r@ == transform_text(*self),
    {
        match self {
            Transform::Identity => owned("identity"),
            Transform::Year => owned("year"),
            Transform::Month => owned("month"),
            Transform::Day => owned("day"),
            Transform::Hour => owned("hour"),
            Transform::Void => owned("void"),
            Transform::Bucket(n) => {
                let mut out = String::new();
                push_str(&mut out, "bucket[");
                push_decimal(&mut out, *n as i64);
                push_str(&mut out, "]");
                out
            },
            Transform::Truncate(n) => {
                let mut out = String::new();
                push_str(&mut out, "truncate[");
                push_decimal(&mut out, *n as i64);
                push_str(&mut out, "]");
                out
            },
        }
    }

    /// Whether this is a temporal transform (year, month, day, hour).
    pub fn is_temporal(&self) -> (r: bool)
        ensures
            r == (*self is Year || *self is Month || *self is Day || *self is Hour),
    {
        match self {
            Transform::Year | Transform::Month | Transform::Day | Transform::Hour => true,
            _ => false,
        }
    }

    /// Whether this transform preserves the order of values.
    pub fn preserves_order(&self) -> (r: bool)
        ensures
            r == !(*self is Bucket || *self is Void),
    {
        match self {
            Transform::Bucket(_) | Transform::Void => false,
            _ => true,
        }
    }

    /// Whether partitioning by this transform satisfies partitioning by `other`: the same
    /// transform, or a finer temporal one (hour, then day, then month, then year).
    pub fn satisfies(&self, other: &Transform) -> (r: bool)
        ensures
            r == satisfies_spec(*self, *other),
    {
        if *self == *other {
            return true;
        }
        match (self, other) {
            (Transform::Hour, Transform::Day) | (Transform::Hour, Transform::Month) | (
                Transform::Hour,
                Transform::Year,
            ) => true,
            (Transform::Day, Transform::Month) | (Transform::Day, Transform::Year) => true,
            (Transform::Month, Transform::Year) => true,
            _ => false,
        }
    }
}

/// The fineness of a temporal transform: hour 4, day 3, month 2, year 1.
pub open spec fn temporal_rank(t: Transform) -> int {
    match t {
        Transform::Hour => 4,
        Transform::Day => 3,
        Transform::Month => 2,
        Transform::Year => 1,
        _ => 0,
    }
}

/// Whether `a` satisfies `b`.
pub open spec fn satisfies_spec(a: Transform, b: Transform) -> bool {
    a == b || (temporal_rank(b) > 0 && temporal_rank(a) > temporal_rank(b))
}

/// Every transform satisfies itself.
pub proof fn lemma_satisfies_reflexive(t: Transform)
    ensures
        satisfies_spec(t, t),
{
}

/// Satisfying is transitive.
pub proof fn lemma_satisfies_transitive(a: Transform, b: Transform, c: Transform)
    requires
        satisfies_spec(a, b),
        satisfies_spec(b, c),
    ensures
        satisfies_spec(a, c),
{
}

/// Two different transforms never satisfy each other.
pub proof fn lemma_satisfies_antisymmetric(a: Transform, b: Transform)
    requires
        satisfies_spec(a, b),
        satisfies_spec(b, a),
    ensures
        a == b,
{
}

/// Reading the name of a transform gives the transform back.
#[verifier::spinoff_prover]
pub proof fn lemma_transform_name_roundtrip(t: Transform)
    ensures
        transform_named(transform_text(t)) == Some(t),
{
    reveal_strlit("identity");
    reveal_strlit("year");
    reveal_strlit("month");
    reveal_strlit("day");
    reveal_strlit("hour");
    reveal_strlit("void");
    reveal_strlit("bucket[");
    reveal_strlit("truncate[");
    reveal_strlit("]");
    match t {
        Transform::Bucket(n) => {
            let s = transform_text(t);
            lemma_parse_i32_of_decimal(n);
            let p = "bucket["@;
            assert(s.take(p.len() as int) =~= p);
            assert(s.subrange(p.len() as int, s.len() - 1) =~= int_decimal(n as int));
            assert(s[0] == 'b');
            assert(s.last() == ']');
            assert(s != "identity"@ && s != "year"@ && s != "month"@ && s != "day"@ && s != "hour"@
                && s != "void"@) by {
                assert("identity"@[0] == 'i' && "year"@[0] == 'y' && "month"@[0] == 'm');
                assert("day"@[0] == 'd' && "hour"@[0] == 'h' && "void"@[0] == 'v');
            }
            assert(has_prefix(s, p));
            assert(bracketed(s, p) == Some(n));
            assert(transform_named(s) == Some(Transform::Bucket(n)));
        },
        Transform::Truncate(n) => {
            let s = transform_text(t);
            lemma_parse_i32_of_decimal(n);
            let p = "truncate["@;
            assert(s.take(p.len() as int) =~= p);
            assert(s.subrange(p.len() as int, s.len() - 1) =~= int_decimal(n as int));
            assert(s[0] == 't');
            assert(s.last() == ']');
            assert(s != "identity"@ && s != "year"@ && s != "month"@ && s != "day"@ && s != "hour"@
                && s != "void"@) by {
                assert("identity"@[0] == 'i' && "year"@[0] == 'y' && "month"@[0] == 'm');
                assert("day"@[0] == 'd' && "hour"@[0] == 'h' && "void"@[0] == 'v');
            }
            assert(has_prefix(s, p));
            assert(bracketed(s, p) == Some(n));
            assert(!has_prefix(s, "bucket["@)) by {
                assert(s.take(7)[0] == 't');
            }
        },
        Transform::Year => {
            assert("year"@ != "identity"@) by {
                assert("year"@.len() != "identity"@.len());
            }
        },
        Transform::Hour => {
            assert("hour"@[0] != "identity"@[0] && "hour"@[0] != "year"@[0] && "hour"@[0] != "month"@[0]
                && "hour"@[0] != "day"@[0]);
        },
        _ => {},
    }
}

// ---------------------------------------------------------------------------
// Integer arithmetic as Rust's signed `/` and `%` do it
// ---------------------------------------------------------------------------

/// Division rounding toward zero (`b != 0`).
pub open spec fn tdiv(a: int, b: int) -> int {
    let q = (if a < 0 { -a } else { a }) / (if b < 0 { -b } else { b });
    if (a < 0) != (b < 0) {
        -q
    } else {
        q
    }
}

/// The remainder of division rounding toward zero: it has the sign of `a`.
pub open spec fn trem(a: int, b: int) -> int {
    a - b * tdiv(a, b)
}

/// The remainder of `a` by `b` as Rust's `%` computes it, through `|b|`.
fn rem_i64(a: i64, b: i64) -> (r: i64)
    requires
        b != 0,
        b != i64::MIN,
        !(a == i64::MIN && b == -1),
    ensures
        r == trem(a as int, b as int),
        a >= 0 ==> 0 <= r < (if b < 0 { -(b as int) } else { b as int }),
        a < 0 ==> -(if b < 0 { -(b as int) } else { b as int }) < r <= 0,
{
    let m: i64 = if b < 0 { -b } else { b };
    let r = a % m;
    proof {
        let am = if a < 0 { -(a as int) } else { a as int };
        let q = am / (m as int);
        vstd::arithmetic::div_mod::lemma_fundamental_div_mod(am, m as int);
        if a < 0 {
            assert(r == -(am % (m as int)));
        } else {
            assert(r == am % (m as int));
        }
        assert(tdiv(a as int, b as int) == if (a < 0) != (b < 0) { -q } else { q });
        assert((b as int) * tdiv(a as int, b as int) == if a < 0 { -((m as int) * q) } else { (m as int) * q }) by (nonlinear_arith)
            requires
                m == (if b < 0 { -(b as int) } else { b as int }),
                tdiv(a as int, b as int) == (if (a < 0) != (b < 0) { -q } else { q }),
        {}
    }
    r
}

/// The bucket of a hash among `n` buckets: the hash modulo `|n|`.
pub open spec fn bucket_index(hash: u32, n: i32) -> int {
    (hash as int) % (if n < 0 { -(n as int) } else { n as int })
}

/// The bucket of `hash` among `n` buckets: `hash % |n|` in 64-bit arithmetic.
fn bucket_of(hash: u32, n: i32) -> (r: i64)
    requires
        n != 0,
    ensures
        r == bucket_index(hash, n),
        0 <= r < (if n < 0 { -(n as int) } else { n as int }),
{
    let m: i64 = if n < 0 { -(n as i64) } else { n as i64 };
    (hash as i64) % m
}

/// The little-endian bytes of a 32-bit value.
pub open spec fn le_bytes32(x: u32) -> Seq<u8> {
    seq![x as u8, (x >> 8u32) as u8, (x >> 16u32) as u8, (x >> 24u32) as u8]
}

/// The little-endian bytes of a 64-bit value.
pub open spec fn le_bytes64(x: u64) -> Seq<u8> {
    seq![
        x as u8,
        (x >> 8u64) as u8,
        (x >> 16u64) as u8,
        (x >> 24u64) as u8,
        (x >> 32u64) as u8,
        (x >> 40u64) as u8,
        (x >> 48u64) as u8,
        (x >> 56u64) as u8,
    ]
}

fn le_bytes_i32(v: i32) -> (r: Vec<u8>)
    ensures
        r@ == le_bytes32(v as u32),
{
    let x = v as u32;
    let r = vec![x as u8, (x >> 8u32) as u8, (x >> 16u32) as u8, (x >> 24u32) as u8];
    assert(r@ =~= le_bytes32(x));
    r
}

fn le_bytes_i64(v: i64) -> (r: Vec<u8>)
    ensures
        r@ == le_bytes64(v as u64),
{
    let x = v as u64;
    let r = vec![
        x as u8,
        (x >> 8u64) as u8,
        (x >> 16u64) as u8,
        (x >> 24u64) as u8,
        (x >> 32u64) as u8,
        (x >> 40u64) as u8,
        (x >> 48u64) as u8,
        (x >> 56u64) as u8,
    ];
    assert(r@ =~= le_bytes64(x));
    r
}

// ---------------------------------------------------------------------------
// Calendar
// ---------------------------------------------------------------------------

/// Days from 1970-01-01 to January 1 of year `y` of the proleptic Gregorian
/// calendar: 365 days a year, plus one for every fourth year, less one for every
/// hundredth, plus one for every four hundredth.
pub open spec fn year_start(y: int) -> int {
    let z = y - 1;
    365 * z + z / 4 - z / 100 + z / 400 - 719162
}

/// The calendar year that day `d` (days since 1970-01-01) falls in.
pub open spec fn calendar_year(d: int) -> int {
    choose|y: int| #[trigger] year_start(y) <= d < year_start(y + 1)
}

/// Whether `year` is a leap year of the Gregorian calendar.
pub open spec fn leap_year(year: int) -> bool {
    (trem(year, 4) == 0 && trem(year, 100) != 0) || trem(year, 400) == 0
}

/// The length of month `i` (0-based).
pub open spec fn month_length(i: int, leap: bool) -> int {
    if i == 1 {
        if leap {
            29
        } else {
            28
        }
    } else if i == 3 || i == 5 || i == 8 || i == 10 {
        30
    } else {
        31
    }
}

/// The month (0-based) that `remaining` days after the start of month `i` fall in;
/// December for anything past it.
pub open spec fn month_from(remaining: int, leap: bool, i: nat) -> int
    decreases 12 - i,
{
    if i >= 12 {
        11
    } else if remaining < month_length(i as int, leap) {
        i as int
    } else {
        month_from(remaining - month_length(i as int, leap), leap, i + 1)
    }
}

/// The month of the year (0 for January) that day `d` falls in.
pub open spec fn calendar_month(d: int) -> int {
    let y = calendar_year(d);
    month_from(d - year_start(y), leap_year(y), 0)
}

/// Years since 1970 of day `d`.
pub open spec fn days_to_year_spec(d: int) -> int {
    calendar_year(d) - 1970
}

/// Months since 1970-01 of day `d`: twelve for each year since 1970, plus the month
/// of the year.
pub open spec fn days_to_month_spec(d: int) -> int {
    (calendar_year(d) - 1970) * 12 + calendar_month(d)
}

/// A later year starts later, by at least 364 days a year, and the year after `a`
/// starts at most 367 days after it.
proof fn lemma_year_start_grows(a: int, b: int)
    requires
        a < b,
    ensures
        year_start(b) - year_start(a) >= 364 * (b - a),
        b == a + 1 ==> year_start(b) - year_start(a) <= 367,
{
    let za = a - 1;
    let zb = b - 1;
    lemma_div_is_ordered(za, zb, 4);
    lemma_div_is_ordered(za, zb, 400);
    lemma_fundamental_div_mod(za, 100);
    lemma_fundamental_div_mod(zb, 100);
    lemma_mod_bound(za, 100);
    lemma_mod_bound(zb, 100);
    if b == a + 1 {
        lemma_fundamental_div_mod(za, 4);
        lemma_fundamental_div_mod(zb, 4);
        lemma_mod_bound(za, 4);
        lemma_mod_bound(zb, 4);
        lemma_fundamental_div_mod(za, 400);
        lemma_fundamental_div_mod(zb, 400);
        lemma_mod_bound(za, 400);
        lemma_mod_bound(zb, 400);
    }
}

/// The calendar year of a day is the one year that holds it.
pub proof fn lemma_calendar_year(d: int, y: int)
    requires
        year_start(y) <= d < year_start(y + 1),
    ensures
        calendar_year(d) == y,
{
    let x = calendar_year(d);
    assert(year_start(x) <= d < year_start(x + 1));
    if x < y {
        if x + 1 < y {
            lemma_year_start_grows(x + 1, y);
        }
    } else if y < x {
        if y + 1 < x {
            lemma_year_start_grows(y + 1, x);
        }
    }
}

/// The month transform refines the year transform: the month of the year is one of
/// twelve, and the months since 1970-01 divided by twelve are the years since 1970.
pub proof fn lemma_month_in_year(d: int)
    ensures
        0 <= calendar_month(d) < 12,
        days_to_month_spec(d) / 12 == days_to_year_spec(d),
{
    let y = calendar_year(d);
    lemma_month_from_bounds(d - year_start(y), leap_year(y), 0);
    lemma_fundamental_div_mod_converse(days_to_month_spec(d), 12, y - 1970, calendar_month(d));
}

/// `z / k` with the division of the integers (rounding down), for `k > 0`.
fn floor_div(z: i64, k: i64) -> (r: i64)
    requires
        k > 0,
        z > i64::MIN,
    ensures
        r == z as int / k as int,
        z >= 0 ==> 0 <= r <= z,
        z < 0 ==> z <= r < 0,
{
    if z >= 0 {
        let q = z / k;
        assert(0 <= q <= z) by (nonlinear_arith)
            requires
                z >= 0,
                k > 0,
                q == z as int / k as int,
        ;
        q
    } else {
        let w = -z - 1;
        let q = w / k;
        proof {
            lemma_fundamental_div_mod(w as int, k as int);
            lemma_mod_bound(w as int, k as int);
            let rr = w as int % k as int;
            assert(0 <= q <= w) by (nonlinear_arith)
                requires
                    w >= 0,
                    k > 0,
                    q == w as int / k as int,
            ;
            assert(z as int == (-(q as int) - 1) * k as int + (k as int - rr - 1)) by (nonlinear_arith)
                requires
                    w as int == k as int * (w as int / k as int) + rr,
                    q as int == w as int / k as int,
                    z as int == -(w as int) - 1,
            ;
            lemma_fundamental_div_mod_converse(z as int, k as int, -(q as int) - 1, k as int - rr - 1);
        }
        -q - 1
    }
}

/// The first day of year `y` (days since 1970-01-01), for a year of at most seven
/// digits.
fn year_start_exec(y: i64) -> (r: i64)
    requires
        -10000000 <= y <= 10000000,
    ensures
        r == year_start(y as int),
{
    let z = y - 1;
    365 * z + floor_div(z, 4) - floor_div(z, 100) + floor_div(z, 400) - 719162
}

/// Days from year 0 of the proleptic calendar to 1970-01-01.
pub open spec fn epoch_day() -> int {
    719528
}

/// An estimate of the calendar year (from year 0) of the days-since-epoch, by 146097
/// days per 400 years; it can miss by a year around New Year.
pub open spec fn year_estimate(days: int) -> int {
    tdiv((days + epoch_day()) * 400, 146097)
}

proof fn lemma_year_estimate_bounds(days: int)
    requires
        i32::MIN <= days <= i32::MAX,
    ensures
        -5877640 <= year_estimate(days) <= 5881580,
{
    let t = (days + epoch_day()) * 400;
    if t >= 0 {
        lemma_div_is_ordered(t, 859281270000, 146097);
        lemma_div_is_ordered(0, t, 146097);
    } else {
        lemma_div_is_ordered(-t, 858705648000, 146097);
        lemma_div_is_ordered(0, -t, 146097);
    }
}

fn year_estimate_exec(days: i32) -> (r: i32)
    ensures
        r == year_estimate(days as int),
        -5877640 <= r <= 5881580,
{
    proof {
        lemma_year_estimate_bounds(days as int);
    }
    let total: i64 = days as i64 + 719528;
    (total * 400 / 146097) as i32
}

/// The calendar year of a day: the estimate, moved to the year that holds the day.
fn calendar_year_exec(days: i32) -> (r: i64)
    ensures
        r == calendar_year(days as int),
        -5877700 <= r <= 5881700,
        year_start(r as int) <= days < year_start(r as int + 1),
{
    let d = days as i64;
    let mut y: i64 = year_estimate_exec(days) as i64;
    proof {
        lemma_fundamental_div_mod_converse(-5877701, 4, -1469426, 3);
        lemma_fundamental_div_mod_converse(-5877701, 100, -58778, 99);
        lemma_fundamental_div_mod_converse(-5877701, 400, -14695, 299);
        lemma_fundamental_div_mod_converse(5881699, 4, 1470424, 3);
        lemma_fundamental_div_mod_converse(5881699, 100, 58816, 99);
        lemma_fundamental_div_mod_converse(5881699, 400, 14704, 99);
        assert(year_start(-5877700) == -2147505370);
        assert(year_start(5881700) == 2147527285);
    }
    while year_start_exec(y) > d
        invariant
            -5877700 <= y <= 5881699,
            d == days,
            year_start(-5877700) < i32::MIN,
        decreases y + 5877700,
    {
        proof {
            if y <= -5877700 {
                assert(y == -5877700);
            }
            lemma_year_start_grows(y as int - 1, y as int);
        }
        y = y - 1;
    }
    while year_start_exec(y + 1) <= d
        invariant
            -5877700 <= y <= 5881699,
            d == days,
            year_start(y as int) <= d,
            year_start(5881700) > i32::MAX,
        decreases 5881700 - y,
    {
        proof {
            if y + 1 >= 5881700 {
                if y + 1 > 5881700 {
                    lemma_year_start_grows(5881700, y as int + 1);
                }
            }
            lemma_year_start_grows(y as int, y as int + 1);
        }
        y = y + 1;
    }
    proof {
        lemma_calendar_year(days as int, y as int);
    }
    y
}

fn is_leap_year(year: i32) -> (r: bool)
    ensures
        r == leap_year(year as int),
{
    (year % 4 == 0 && year % 100 != 0) || year % 400 == 0
}

fn month_days(i: i32, leap: bool) -> (r: i32)
    ensures
        r == month_length(i as int, leap),
{
    if i == 1 {
        if leap {
            29
        } else {
            28
        }
    } else if i == 3 || i == 5 || i == 8 || i == 10 {
        30
    } else {
        31
    }
}

fn estimate_month(day_of_year: i32, leap: bool) -> (r: i32)
    ensures
        r == month_from(day_of_year as int, leap, 0),
{
    let mut remaining = day_of_year;
    let mut i: i32 = 0;
    while i < 12
        invariant
            0 <= i <= 12,
            month_from(day_of_year as int, leap, 0) == month_from(remaining as int, leap, i as nat),
        decreases 12 - i,
    {
        let d = month_days(i, leap);
        if remaining < d {
            return i;
        }
        remaining = remaining - d;
        i = i + 1;
    }
    11
}

fn days_to_year(days: i32) -> (r: i32)
    ensures
        r == days_to_year_spec(days as int),
{
    (calendar_year_exec(days) - 1970) as i32
}

fn days_to_month(days: i32) -> (r: i32)
    ensures
        r == days_to_month_spec(days as int),
{
    let y = calendar_year_exec(days);
    let start = year_start_exec(y);
    proof {
        lemma_year_start_grows(y as int, y as int + 1);
    }
    let day_of_year = (days as i64 - start) as i32;
    let month = estimate_month(day_of_year, is_leap_year(y as i32));
    proof {
        lemma_month_from_bounds(day_of_year as int, leap_year(y as int), 0);
    }
    ((y - 1970) * 12) as i32 + month
}

proof fn lemma_month_from_bounds(remaining: int, leap: bool, i: nat)
    requires
        i <= 12,
    ensures
        i <= month_from(remaining, leap, i) <= 11 || (i == 12 && month_from(remaining, leap, i) == 11),
    decreases 12 - i,
{
    if i < 12 && remaining >= month_length(i as int, leap) {
        lemma_month_from_bounds(remaining - month_length(i as int, leap), leap, i + 1);
    }
}

// ---------------------------------------------------------------------------
// Applying transforms
// ---------------------------------------------------------------------------

/// What truncating `v` to `w` gives for an integer column.
pub open spec fn truncate_int(v: int, w: int) -> int {
    if v >= 0 {
        v - trem(v, w)
    } else {
        v - trem(v, w) - w
    }
}

/// Whether truncating `v` to `w` is defined for values in `lo..=hi`: a nonzero width,
/// no `MIN % -1`, and a result in range.
pub open spec fn truncate_int_defined(v: int, w: int, lo: int, hi: int) -> bool {
    w != 0 && !(v == lo && w == -1) && lo <= truncate_int(v, w) <= hi
}

/// What truncating a date or timestamp `v` to `w` gives.
pub open spec fn truncate_down(v: int, w: int) -> int {
    v - (if trem(v, w) > 0 { trem(v, w) } else { 0 })
}

/// Microseconds per day.
pub open spec fn micros_per_day() -> int {
    86400000000
}

/// Microseconds per hour.
pub open spec fn micros_per_hour() -> int {
    3600000000
}

/// What a transform gives for a timestamp in microseconds.
pub open spec fn timestamp_transform(t: Transform, micros: i64) -> Option<i32> {
    let days = tdiv(micros as int, micros_per_day()) as i32;
    match t {
        Transform::Identity => None,
        Transform::Year => Some(days_to_year_spec(days as int) as i32),
        Transform::Month => Some(days_to_month_spec(days as int) as i32),
        Transform::Day => Some(days),
        Transform::Hour => Some(tdiv(micros as int, micros_per_hour()) as i32),
        Transform::Void => None,
        Transform::Bucket(n) => Some(bucket_index(murmur3(le_bytes64(micros as u64), 0), n) as i32),
        Transform::Truncate(w) => Some(truncate_down(micros as int, w as int) as i32),
    }
}

/// The hour and day transforms of a timestamp count whole hours and whole days since
/// the epoch: for a timestamp from the epoch on (and below `2^31 - 1` hours), the
/// hour `h` it gives is the one with `h` hours at or before it and `h + 1` hours
/// after it, the day `d` likewise with days, and day `d` holds hour `h`.
pub proof fn lemma_hours_and_days_since_epoch(micros: i64)
    requires
        0 <= micros < 7730941129200000000,
    ensures
        timestamp_transform(Transform::Hour, micros) matches Some(h) && h >= 0 && h * 3600000000 <= micros < (h + 1)
            * 3600000000,
        timestamp_transform(Transform::Day, micros) matches Some(d) && d >= 0 && d * 86400000000 <= micros < (d + 1)
            * 86400000000,
        timestamp_transform(Transform::Hour, micros) matches Some(h) && timestamp_transform(
            Transform::Day,
            micros,
        ) matches Some(d) && d * 24 <= h < (d + 1) * 24,
{
    let m = micros as int;
    lemma_fundamental_div_mod(m, 3600000000);
    lemma_mod_bound(m, 3600000000);
    lemma_fundamental_div_mod(m, 86400000000);
    lemma_mod_bound(m, 86400000000);
    let h = m / 3600000000;
    let d = m / 86400000000;
    assert(0 <= h < 2147483647) by (nonlinear_arith)
        requires
            m == 3600000000 * h + m % 3600000000,
            0 <= m % 3600000000 < 3600000000,
            0 <= m < 7730941129200000000,
    ;
    assert(0 <= d < 2147483647) by (nonlinear_arith)
        requires
            m == 86400000000 * d + m % 86400000000,
            0 <= m % 86400000000 < 86400000000,
            0 <= m < 7730941129200000000,
    ;
    assert(d * 24 <= h < (d + 1) * 24) by (nonlinear_arith)
        requires
            m == 3600000000 * h + m % 3600000000,
            0 <= m % 3600000000 < 3600000000,
            m == 86400000000 * d + m % 86400000000,
            0 <= m % 86400000000 < 86400000000,
    ;
}

/// One hour later, the hour transform gives the next hour.
pub proof fn lemma_hour_steps_by_one(micros: i64)
    requires
        0 <= micros < 7730941129200000000 - 3600000000,
    ensures
        timestamp_transform(Transform::Hour, micros) matches Some(h) && timestamp_transform(
            Transform::Hour,
            (micros + 3600000000) as i64,
        ) == Some((h + 1) as i32),
{
    lemma_hours_and_days_since_epoch(micros);
    lemma_hours_and_days_since_epoch((micros + 3600000000) as i64);
    let h = timestamp_transform(Transform::Hour, micros)->0;
    let h2 = timestamp_transform(Transform::Hour, (micros + 3600000000) as i64)->0;
    assert(h2 == h + 1) by (nonlinear_arith)
        requires
            h * 3600000000 <= micros < (h + 1) * 3600000000,
            h2 * 3600000000 <= micros + 3600000000 < (h2 + 1) * 3600000000,
    ;
}

/// Whether a transform is defined for a timestamp.
pub open spec fn timestamp_transform_defined(t: Transform, micros: i64) -> bool {
    match t {
        Transform::Bucket(n) => n != 0,
        Transform::Truncate(w) => w != 0 && !(micros == i64::MIN && w == -1),
        _ => true,
    }
}

/// What a transform gives for a date in days since the epoch.
pub open spec fn date_transform(t: Transform, days: i32) -> Option<i32> {
    match t {
        Transform::Identity => Some(days),
        Transform::Year => Some(days_to_year_spec(days as int) as i32),
        Transform::Month => Some(days_to_month_spec(days as int) as i32),
        Transform::Day => Some(days),
        Transform::Hour => None,
        Transform::Void => None,
        Transform::Bucket(n) => Some(bucket_index(murmur3(le_bytes32(days as u32), 0), n) as i32),
        Transform::Truncate(w) => Some(truncate_down(days as int, w as int) as i32),
    }
}

/// Whether a transform is defined for a date.
pub open spec fn date_transform_defined(t: Transform, days: i32) -> bool {
    match t {
        Transform::Bucket(n) => n != 0,
        Transform::Truncate(w) => w != 0 && !(days == i32::MIN && w == -1),
        _ => true,
    }
}

/// What a transform gives for an `int` value.
pub open spec fn int_transform(t: Transform, value: i32) -> Option<i32> {
    match t {
        Transform::Identity => Some(value),
        Transform::Bucket(n) => Some(bucket_index(murmur3(le_bytes32(value as u32), 0), n) as i32),
        Transform::Truncate(w) => Some(truncate_int(value as int, w as int) as i32),
        _ => None,
    }
}

/// Whether a transform is defined for an `int` value.
pub open spec fn int_transform_defined(t: Transform, value: i32) -> bool {
    match t {
        Transform::Bucket(n) => n != 0,
        Transform::Truncate(w) => truncate_int_defined(value as int, w as int, i32::MIN as int, i32::MAX as int),
        _ => true,
    }
}

/// What a transform gives for a `long` value.
pub open spec fn long_transform(t: Transform, value: i64) -> Option<i64> {
    match t {
        Transform::Identity => Some(value),
        Transform::Bucket(n) => Some(bucket_index(murmur3(le_bytes64(value as u64), 0), n) as i64),
        Transform::Truncate(w) => Some(truncate_int(value as int, w as int) as i64),
        _ => None,
    }
}

/// Whether a transform is defined for a `long` value.
pub open spec fn long_transform_defined(t: Transform, value: i64) -> bool {
    match t {
        Transform::Bucket(n) => n != 0,
        Transform::Truncate(w) => truncate_int_defined(value as int, w as int, i64::MIN as int, i64::MAX as int),
        _ => true,
    }
}

/// What a transform gives for a string: its bucket number in decimal, or its first
/// `w` characters when its UTF-8 form is longer than `w` bytes (`w` read as a `usize`).
pub open spec fn string_transform(t: Transform, value: Seq<char>) -> Option<Seq<char>> {
    match t {
        Transform::Identity => Some(value),
        Transform::Bucket(n) => Some(decimal_digits(bucket_index(murmur3(encode_utf8(value), 0), n) as nat)),
        Transform::Truncate(w) => {
            let wu = w as usize;
            if encode_utf8(value).len() as usize <= wu {
                Some(value)
            } else {
                Some(value.take(if wu < value.len() { wu as int } else { value.len() as int }))
            }
        },
        _ => None,
    }
}

impl Transform {
    /// The transform of a timestamp in microseconds since the epoch.
    pub fn apply_to_timestamp_micros(&self, micros: i64) -> (r: Option<i32>)
        requires
            timestamp_transform_defined(*self, micros),
        ensures
            r == timestamp_transform(*self, micros),
            self matches Transform::Bucket(n) ==> r matches Some(b) && 0 <= b < (if n < 0 { -(n as int) } else { n as int }),
    {
        match self {
            Transform::Identity => None,
            Transform::Year => {
                let days = micros / 86400000000;
                Some(days_to_year(days as i32))
            },
            Transform::Month => {
                let days = micros / 86400000000;
                Some(days_to_month(days as i32))
            },
            Transform::Day => {
                let days = micros / 86400000000;
                Some(days as i32)
            },
            Transform::Hour => {
                let hours = micros / 3600000000;
                Some(hours as i32)
            },
            Transform::Void => None,
            Transform::Bucket(n) => {
                let hash = murmur3_x86_32(le_bytes_i64(micros).as_slice(), 0);
                Some(bucket_of(hash, *n) as i32)
            },
            Transform::Truncate(width) => {
                let r = rem_i64(micros, *width as i64);
                let keep = if r > 0 { r } else { 0 };
                Some((micros - keep) as i32)
            },
        }
    }

    /// The transform of a date in days since the epoch.
    pub fn apply_to_date(&self, days: i32) -> (r: Option<i32>)
        requires
            date_transform_defined(*self, days),
        ensures
            r == date_transform(*self, days),
            self matches Transform::Bucket(n) ==> r matches Some(b) && 0 <= b < (if n < 0 { -(n as int) } else { n as int }),
    {
        match self {
            Transform::Identity => Some(days),
            Transform::Year => Some(days_to_year(days)),
            Transform::Month => Some(days_to_month(days)),
            Transform::Day => Some(days),
            Transform::Hour => None,
            Transform::Void => None,
            Transform::Bucket(n) => {
                let hash = murmur3_x86_32(le_bytes_i32(days).as_slice(), 0);
                Some(bucket_of(hash, *n) as i32)
            },
            Transform::Truncate(width) => {
                let r = rem_i64(days as i64, *width as i64);
                let keep = if r > 0 { r } else { 0 };
                Some((days as i64 - keep) as i32)
            },
        }
    }

    /// The transform of an `int` value.
    pub fn apply_to_int(&self, value: i32) -> (r: Option<i32>)
        requires
            int_transform_defined(*self, value),
        ensures
            r == int_transform(*self, value),
            self matches Transform::Bucket(n) ==> r matches Some(b) && 0 <= b < (if n < 0 { -(n as int) } else { n as int }),
    {
        match self {
            Transform::Identity => Some(value),
            Transform::Void => None,
            Transform::Bucket(n) => {
                let hash = murmur3_x86_32(le_bytes_i32(value).as_slice(), 0);
                Some(bucket_of(hash, *n) as i32)
            },
            Transform::Truncate(width) => {
                let w = *width as i64;
                let v = value as i64;
                let r = rem_i64(v, w);
                if value >= 0 {
                    Some((v - r) as i32)
                } else {
                    Some((v - r - w) as i32)
                }
            },
            _ => None,
        }
    }

    /// The transform of a `long` value.
    pub fn apply_to_long(&self, value: i64) -> (r: Option<i64>)
        requires
            long_transform_defined(*self, value),
        ensures
            r == long_transform(*self, value),
            self matches Transform::Bucket(n) ==> r matches Some(b) && 0 <= b < (if n < 0 { -(n as int) } else { n as int }),
    {
        match self {
            Transform::Identity => Some(value),
            Transform::Void => None,
            Transform::Bucket(n) => {
                let hash = murmur3_x86_32(le_bytes_i64(value).as_slice(), 0);
                Some(bucket_of(hash, *n))
            },
            Transform::Truncate(width) => {
                let w = *width as i64;
                let r = rem_i64(value, w);
                if value >= 0 {
                    Some(value - r)
                } else {
                    Some(value - r - w)
                }
            },
            _ => None,
        }
    }

    /// The transform of a string value.
    pub fn apply_to_string(&self, value: &str) -> (r: Option<String>)
        requires
            self matches Transform::Bucket(n) ==> n != 0,
        ensures
            match r {
                Some(s) => string_transform(*self, value@) == Some(s@),
                None => string_transform(*self, value@) is None,
            },
    {
        match self {
            Transform::Identity => Some(owned(value)),
            Transform::Void => None,
            Transform::Bucket(n) => {
                let hash = murmur3_x86_32(value.as_bytes(), 0);
                let b = bucket_of(hash, *n);
                let mut out = String::new();
                push_unsigned(&mut out, b as u64);
                Some(out)
            },
            Transform::Truncate(width) => {
                let w = #[verifier::truncate] (*width as usize);
                if value.len() <= w {
                    Some(owned(value))
                } else {
                    let cs = chars_of(value);
                    let end = if w < cs.len() { w } else { cs.len() };
                    Some(substring(&cs, 0, end))
                }
            },
            _ => None,
        }
    }
}

// ---------------------------------------------------------------------------
// Partition specs
// ---------------------------------------------------------------------------

/// What a partition field holds.
pub struct PartitionFieldView {
    pub source_id: i32,
    pub field_id: i32,
    pub name: Seq<char>,
    pub transform: Seq<char>,
}

/// A partition field.
#[derive(Debug)]
pub struct PartitionField {
    /// Source column ID
    pub source_id: i32,
    /// Partition field ID
    pub field_id: i32,
    /// Partition field name
    pub name: String,
    /// Transform to apply, by name
    pub transform: String,
}

impl View for PartitionField {
    type V = PartitionFieldView;

    open spec fn view(&self) -> PartitionFieldView {
        PartitionFieldView {
            source_id: self.source_id,
            field_id: self.field_id,
            name: self.name@,
            transform: self.transform@,
        }
    }
}

/// The views of a sequence of partition fields.
pub open spec fn partition_field_views(fs: Seq<PartitionField>) -> Seq<PartitionFieldView> {
    Seq::new(fs.len(), |i: int| fs[i]@)
}

/// The index of the first element of `n` at which `f` holds, looking from `i` on.
pub open spec fn first_from(n: nat, f: spec_fn(int) -> bool, i: nat) -> Option<int>
    decreases n - i,
{
    if i >= n {
        None
    } else if f(i as int) {
        Some(i as int)
    } else {
        first_from(n, f, i + 1)
    }
}

proof fn lemma_first_from(n: nat, f: spec_fn(int) -> bool, i: nat)
    ensures
        first_from(n, f, i) matches Some(k) ==> i <= k < n && f(k),
    decreases n - i,
{
    if i < n && !f(i as int) {
        lemma_first_from(n, f, i + 1);
    }
}

impl PartitionField {
    /// A partition field.
    pub fn new(source_id: i32, field_id: i32, name: &str, transform: &str) -> (r: PartitionField)
        ensures
            r@ == (PartitionFieldView { source_id, field_id, name: name@, transform: transform@ }),
    {
        PartitionField { source_id, field_id, name: owned(name), transform: owned(transform) }
    }

    /// The transform, parsed.
    pub fn parsed_transform(&self) -> (r: Option<Transform>)
        ensures
            r == transform_named(self.transform@),
    {
        Transform::from_str(self.transform.as_str())
    }

    /// Whether the transform is `identity`.
    pub fn is_identity(&self) -> (r: bool)
        ensures
            r == (self.transform@ == "identity"@),
    {
        str_eq(self.transform.as_str(), "identity")
    }

    /// Whether the transform is `void` (a hidden partition).
    pub fn is_void(&self) -> (r: bool)
        ensures
            r == (self.transform@ == "void"@),
    {
        str_eq(self.transform.as_str(), "void")
    }
}

/// A partition spec.
#[derive(Debug)]
pub struct PartitionSpec {
    /// Partition spec ID
    pub spec_id: i32,
    /// Partition fields
    pub fields: Vec<PartitionField>,
}

impl PartitionSpec {
    /// The fields.
    pub open spec fn field_list(&self) -> Seq<PartitionFieldView> {
        partition_field_views(self.fields@)
    }

    /// A partition spec.
    pub fn new(spec_id: i32, fields: Vec<PartitionField>) -> (r: PartitionSpec)
        ensures
            r.spec_id == spec_id,
            r.field_list() == partition_field_views(fields@),
    {
        PartitionSpec { spec_id, fields }
    }

    /// The spec with id 0 and no fields.
    pub fn unpartitioned() -> (r: PartitionSpec)
        ensures
            r.spec_id == 0,
            r.field_list() == Seq::<PartitionFieldView>::empty(),
    {
        let r = PartitionSpec { spec_id: 0, fields: Vec::new() };
        assert(r.field_list() =~= Seq::<PartitionFieldView>::empty());
        r
    }

    /// Whether the spec partitions nothing: no fields, or only void ones.
    pub fn is_unpartitioned(&self) -> (r: bool)
        ensures
            r == forall|i: int| 0 <= i < self.fields.len() ==> #[trigger] self.fields@[i].transform@ == "void"@,
    {
        let mut i: usize = 0;
        while i < self.fields.len()
            invariant
                i <= self.fields.len(),
                forall|j: int| 0 <= j < i ==> #[trigger] self.fields@[j].transform@ == "void"@,
            decreases self.fields.len() - i,
        {
            if !self.fields[i].is_void() {
                return false;
            }
            i = i + 1;
        }
        true
    }

    /// The first field with the given id.
    pub fn field(&self, field_id: i32) -> (r: Option<&PartitionField>)
        ensures
            match first_from(self.fields.len() as nat, |i: int| self.fields@[i].field_id == field_id, 0) {
                Some(k) => r matches Some(f) && f@ == self.fields@[k]@,
                None => r is None,
            },
    {
        let ghost f = |i: int| self.fields@[i].field_id == field_id;
        let mut i: usize = 0;
        while i < self.fields.len()
            invariant
                i <= self.fields.len(),
                f == (|i: int| self.fields@[i].field_id == field_id),
                first_from(self.fields.len() as nat, f, 0) == first_from(self.fields.len() as nat, f, i as nat),
            decreases self.fields.len() - i,
        {
            if self.fields[i].field_id == field_id {
                return Some(&self.fields[i]);
            }
            i = i + 1;
        }
        None
    }

    /// The first field with the given name.
    pub fn field_by_name(&self, name: &str) -> (r: Option<&PartitionField>)
        ensures
            match first_from(self.fields.len() as nat, |i: int| self.fields@[i].name@ == name@, 0) {
                Some(k) => r matches Some(f) && f@ == self.fields@[k]@,
                None => r is None,
            },
    {
        let ghost f = |i: int| self.fields@[i].name@ == name@;
        let mut i: usize = 0;
        while i < self.fields.len()
            invariant
                i <= self.fields.len(),
                f == (|i: int| self.fields@[i].name@ == name@),
                first_from(self.fields.len() as nat, f, 0) == first_from(self.fields.len() as nat, f, i as nat),
            decreases self.fields.len() - i,
        {
            if str_eq(self.fields[i].name.as_str(), name) {
                return Some(&self.fields[i]);
            }
            i = i + 1;
        }
        None
    }

    /// The fields with the given source column, in order.
    pub fn fields_by_source_id(&self, source_id: i32) -> (r: Vec<&PartitionField>)
        ensures
            Seq::new(r.len() as nat, |i: int| r@[i]@) == self.field_list().filter(
                |f: PartitionFieldView| f.source_id == source_id,
            ),
    {
        let ghost p = |f: PartitionFieldView| f.source_id == source_id;
        let mut r: Vec<&PartitionField> = Vec::new();
        let mut i: usize = 0;
        while i < self.fields.len()
            invariant
                i <= self.fields.len(),
                p == (|f: PartitionFieldView| f.source_id == source_id),
                Seq::new(r.len() as nat, |k: int| r@[k]@) == self.field_list().take(i as int).filter(p),
            decreases self.fields.len() - i,
        {
            let ghost before = Seq::new(r.len() as nat, |k: int| r@[k]@);
            proof {
                reveal(Seq::filter);
                assert(self.field_list().take(i + 1).drop_last() =~= self.field_list().take(i as int));
                assert(self.field_list().take(i + 1).last() == self.fields@[i as int]@);
            }
            if self.fields[i].source_id == source_id {
                r.push(&self.fields[i]);
                assert(Seq::new(r.len() as nat, |k: int| r@[k]@) =~= before.push(self.fields@[i as int]@));
            }
            i = i + 1;
        }
        assert(self.field_list().take(self.fields.len() as int) =~= self.field_list());
        r
    }
}

/// Sort direction.
#[derive(Debug, Clone, Copy, PartialEq, Eq, Structural)]
pub enum SortDirection {
    Asc,
    Desc,
}

/// Null ordering.
#[derive(Debug, Clone, Copy, PartialEq, Eq, Structural)]
pub enum NullOrder {
    NullsFirst,
    NullsLast,
}

impl Default for SortDirection {
    fn default() -> (r: SortDirection)
        ensures
            r == SortDirection::Asc,
    {
        SortDirection::Asc
    }
}

impl Default for NullOrder {
    fn default() -> (r: NullOrder)
        ensures
            r == NullOrder::NullsFirst,
    {
        NullOrder::NullsFirst
    }
}

/// A sort field.
#[derive(Debug)]
pub struct SortField {
    /// Source column ID
    pub source_id: i32,
    /// Transform to apply before sorting, by name
    pub transform: String,
    /// Sort direction
    pub direction: SortDirection,
    /// Null ordering
    pub null_order: NullOrder,
}

impl SortField {
    /// A sort field on the identity of the source column.
    pub fn new(source_id: i32, direction: SortDirection, null_order: NullOrder) -> (r: SortField)
        ensures
            r.source_id == source_id,
            r.transform@ == "identity"@,
            r.direction == direction,
            r.null_order == null_order,
    {
        SortField { source_id, transform: owned("identity"), direction, null_order }
    }

    /// Ascending, nulls first.
    pub fn asc(source_id: i32) -> (r: SortField)
        ensures
            r.source_id == source_id,
            r.transform@ == "identity"@,
            r.direction == SortDirection::Asc,
            r.null_order == NullOrder::NullsFirst,
    {
        Self::new(source_id, SortDirection::Asc, NullOrder::NullsFirst)
    }

    /// Descending, nulls last.
    pub fn desc(source_id: i32) -> (r: SortField)
        ensures
            r.source_id == source_id,
            r.transform@ == "identity"@,
            r.direction == SortDirection::Desc,
            r.null_order == NullOrder::NullsLast,
    {
        Self::new(source_id, SortDirection::Desc, NullOrder::NullsLast)
    }

    /// This field with the given transform.
    pub fn with_transform(self, transform: &str) -> (r: SortField)
        ensures
            r.source_id == self.source_id,
            r.transform@ == transform@,
            r.direction == self.direction,
            r.null_order == self.null_order,
    {
        SortField { source_id: self.source_id, transform: owned(transform), direction: self.direction, null_order: self.null_order }
    }
}

/// A sort order.
#[derive(Debug)]
pub struct SortOrder {
    /// Sort order ID
    pub order_id: i32,
    /// Sort fields
    pub fields: Vec<SortField>,
}

impl SortOrder {
    /// A sort order.
    pub fn new(order_id: i32, fields: Vec<SortField>) -> (r: SortOrder)
        ensures
            r.order_id == order_id,
            r.fields@ == fields@,
    {
        SortOrder { order_id, fields }
    }

    /// The order with id 0 and no fields.
    pub fn unsorted() -> (r: SortOrder)
        ensures
            r.order_id == 0,
            r.fields.len() == 0,
    {
        SortOrder { order_id: 0, fields: Vec::new() }
    }

    /// Whether the order has no fields.
    pub fn is_unsorted(&self) -> (r: bool)
        ensures
            r == (self.fields.len() == 0),
    {
        self.fields.len() == 0
    }
}

} // verus!
