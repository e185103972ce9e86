//! Literal: constant values in expressions.
use vstd::prelude::*;
use std::cmp::Ordering;
use super::datum::{Datum, DatumView, datum_order_code, datum_is_nan, ordering_of, widen_f32, widen_f32_bits, compare_code};
use crate::text::chars_of;

verus! {

broadcast use vstd::string::group_string_axioms;

/// A literal constant value in an expression.
#[derive(Debug)]
pub struct Literal {
    /// The underlying datum value
    value: Datum,
}

impl View for Literal {
    type V = DatumView;

    closed spec fn view(&self) -> DatumView {
        self.value@
    }
}

impl Literal {
    /// Create a new literal from a datum.
    pub fn new(value: Datum) -> (r: Literal)
        ensures
            r@ == value@,
    {
        Literal { value }
    }

    /// Create a null literal.
    pub fn null() -> (r: Literal)
        ensures
            r@ == DatumView::Null,
    {
        Literal::new(Datum::Null)
    }

    /// Create a boolean literal.
    pub fn boolean(value: bool) -> (r: Literal)
        ensures
            r@ == DatumView::Boolean(value),
    {
        Literal::new(Datum::Boolean(value))
    }

    /// Create an integer literal.
    pub fn int32(value: i32) -> (r: Literal)
        ensures
            r@ == DatumView::Int(value),
    {
        Literal::new(Datum::Int(value))
    }

    /// Create a long literal.
    pub fn long(value: i64) -> (r: Literal)
        ensures
            r@ == DatumView::Long(value),
    {
        Literal::new(Datum::Long(value))
    }

    /// Create a float literal from the IEEE-754 bits of the value.
    pub fn float(bits: u32) -> (r: Literal)
        ensures
            r@ == DatumView::Float(bits),
    {
        Literal::new(Datum::Float(bits))
    }

    /// Create a double literal from the IEEE-754 bits of the value.
    pub fn double(bits: u64) -> (r: Literal)
        ensures
            r@ == DatumView::Double(bits),
    {
        Literal::new(Datum::Double(bits))
    }

    /// Create a date literal (days from epoch).
    pub fn date(days: i32) -> (r: Literal)
        ensures
            r@ == DatumView::Date(days),
    {
        Literal::new(Datum::Date(days))
    }

    /// Create a time literal (microseconds from midnight).
    pub fn time(micros: i64) -> (r: Literal)
        ensures
            r@ == DatumView::Time(micros),
    {
        Literal::new(Datum::Time(micros))
    }

    /// Create a timestamp literal (microseconds from epoch).
    pub fn timestamp(micros: i64) -> (r: Literal)
        ensures
            r@ == DatumView::Timestamp(micros),
    {
        Literal::new(Datum::Timestamp(micros))
    }

    /// Create a timestamp with timezone literal.
    pub fn timestamp_tz(micros: i64) -> (r: Literal)
        ensures
            r@ == DatumView::TimestampTz(micros),
    {
        Literal::new(Datum::TimestampTz(micros))
    }

    /// Create a string literal.
    pub fn string(value: &str) -> (r: Literal)
        ensures
            r@ == DatumView::String(value@),
    {
        Literal::new(Datum::string(value))
    }

    /// Create a UUID literal.
    pub fn uuid(bytes: [u8; 16]) -> (r: Literal)
        ensures
            r@ == DatumView::Uuid(bytes@),
    {
        Literal::new(Datum::Uuid(bytes))
    }

    /// Create a binary literal.
    pub fn binary(value: Vec<u8>) -> (r: Literal)
        ensures
            r@ == DatumView::Binary(value@),
    {
        Literal::new(Datum::Binary(value))
    }

    /// Create a fixed-length binary literal.
    pub fn fixed(value: Vec<u8>) -> (r: Literal)
        ensures
            r@ == DatumView::Fixed(value@),
    {
        Literal::new(Datum::Fixed(value))
    }

    /// Create a decimal literal.
    pub fn decimal(value: Vec<u8>, precision: u8, scale: u8) -> (r: Literal)
        ensures
            r@ == (DatumView::Decimal { value: value@, precision, scale }),
    {
        Literal::new(Datum::Decimal { value, precision, scale })
    }

    /// A copy of this literal.
    pub fn duplicate(&self) -> (r: Literal)
        ensures
            r@ == self@,
    {
        Literal { value: self.value.duplicate() }
    }

    /// Get the underlying datum.
    pub fn value(&self) -> (r: &Datum)
        ensures
            r@ == self@,
    {
        &self.value
    }

    /// Get the underlying datum (owned).
    pub fn into_value(self) -> (r: Datum)
        ensures
            r@ == self@,
    {
        self.value
    }

    /// Check if this literal is null.
    pub fn is_null(&self) -> (r: bool)
        ensures
            r == (self@ is Null),
    {
        self.value.is_null()
    }

    /// Check if this literal is NaN.
    pub fn is_nan(&self) -> (r: bool)
        ensures
            r == datum_is_nan(self@),
    {
        self.value.is_nan()
    }

    /// Compare this literal with a datum.
    pub fn compare(&self, other: &Datum) -> (r: Option<Ordering>)
        ensures
            r == ordering_of(datum_order_code(self@, other@)),
    {
        self.value.compare(other)
    }

    /// Compare two literals.
    pub fn compare_literal(&self, other: &Literal) -> (r: Option<Ordering>)
        ensures
            r == ordering_of(datum_order_code(self@, other@)),
    {
        self.value.compare(&other.value)
    }

    /// Convert this literal to the type with the given name; `None` when the value
    /// cannot be represented there.
    pub fn to_type(&self, target_type: &str) -> (r: Option<Literal>)
        ensures
            match r {
                Some(l) => literal_conversion(target_type@, self@) == Some(l@),
                None => literal_conversion(target_type@, self@) is None,
            },
    {
        let n = target_type;
        match &self.value {
            Datum::Boolean(_) => if crate::text::str_eq(n, "boolean") {
                return Some(self.duplicate());
            },
            Datum::Int(v) => {
                if crate::text::str_eq(n, "int") {
                    return Some(self.duplicate());
                }
                if crate::text::str_eq(n, "long") {
                    return Some(Literal::long(widen_int(*v)));
                }
                if crate::text::str_eq(n, "float") {
                    return Some(Literal::float(crate::expr::floats::i64_to_f32_bits(widen_int(*v))));
                }
                if crate::text::str_eq(n, "double") {
                    return Some(Literal::double(crate::expr::floats::i64_to_f64_bits(widen_int(*v))));
                }
            },
            Datum::Long(v) => {
                if crate::text::str_eq(n, "int") {
                    if -2147483648 <= *v && *v <= 2147483647 {
                        return Some(Literal::int32(narrow_long(*v)));
                    }
                    return None;
                }
                if crate::text::str_eq(n, "long") {
                    return Some(self.duplicate());
                }
                if crate::text::str_eq(n, "float") {
                    return Some(Literal::float(crate::expr::floats::i64_to_f32_bits(*v)));
                }
                if crate::text::str_eq(n, "double") {
                    return Some(Literal::double(crate::expr::floats::i64_to_f64_bits(*v)));
                }
            },
            Datum::Float(v) => {
                if crate::text::str_eq(n, "float") {
                    return Some(self.duplicate());
                }
                if crate::text::str_eq(n, "double") {
                    return Some(Literal::double(widen_f32_bits(*v)));
                }
            },
            Datum::Double(_) => if crate::text::str_eq(n, "double") {
                return Some(self.duplicate());
            },
            Datum::Date(_) => if crate::text::str_eq(n, "date") {
                return Some(self.duplicate());
            },
            Datum::Time(_) => if crate::text::str_eq(n, "time") {
                return Some(self.duplicate());
            },
            Datum::Timestamp(v) => {
                if crate::text::str_eq(n, "timestamp") {
                    return Some(self.duplicate());
                }
                if crate::text::str_eq(n, "timestamptz") {
                    return Some(Literal::timestamp_tz(*v));
                }
            },
            Datum::TimestampTz(v) => {
                if crate::text::str_eq(n, "timestamptz") {
                    return Some(self.duplicate());
                }
                if crate::text::str_eq(n, "timestamp") {
                    return Some(Literal::timestamp(*v));
                }
            },
            Datum::String(_) => if crate::text::str_eq(n, "string") {
                return Some(self.duplicate());
            },
            Datum::Uuid(_) => if crate::text::str_eq(n, "uuid") {
                return Some(self.duplicate());
            },
            Datum::Binary(_) => if crate::text::str_eq(n, "binary") {
                return Some(self.duplicate());
            },
            Datum::Fixed(v) => {
                if crate::text::str_eq(n, "fixed") {
                    return Some(self.duplicate());
                }
                if crate::text::str_eq(n, "binary") {
                    return Some(Literal::binary(copy_vec(v)));
                }
            },
            Datum::Decimal { .. } => if crate::text::str_eq(n, "decimal") {
                return Some(self.duplicate());
            },
            _ => {},
        }
        None
    }
}

fn copy_vec(v: &Vec<u8>) -> (r: Vec<u8>)
    ensures
        r@ == v@,
{
    let mut r: Vec<u8> = Vec::new();
    let mut i: usize = 0;
    while i < v.len()
        invariant
            i <= v.len(),
            r@ == v@.take(i as int),
        decreases v.len() - i,
    {
        r.push(v[i]);
        i = i + 1;
        assert(v@.take(i as int) == v@.take(i - 1).push(v@[i - 1]));
    }
    assert(v@.take(v.len() as int) == v@);
    r
}

fn widen_int(v: i32) -> (r: i64)
    ensures
        r as int == v as int,
{
    v as i64
}

fn narrow_long(v: i64) -> (r: i32)
    requires
        i32::MIN <= v <= i32::MAX,
    ensures
        r as int == v as int,
{
    v as i32
}

/// What converting a literal to the named type gives, where the original value can be
/// represented there; integers become floating-point values by rounding to nearest.
pub open spec fn literal_conversion(target: Seq<char>, v: DatumView) -> Option<DatumView> {
    match v {
        DatumView::Boolean(_) => if target == "boolean"@ { Some(v) } else { None },
        DatumView::Int(x) => if target == "int"@ {
            Some(v)
        } else if target == "long"@ {
            Some(DatumView::Long(x as i64))
        } else if target == "float"@ {
            Some(DatumView::Float(crate::expr::floats::int_to_f32(x as int)))
        } else if target == "double"@ {
            Some(DatumView::Double(crate::expr::floats::int_to_f64(x as int)))
        } else {
            None
        },
        DatumView::Long(x) => if target == "int"@ {
            if i32::MIN <= x <= i32::MAX {
                Some(DatumView::Int(x as i32))
            } else {
                None
            }
        } else if target == "long"@ {
            Some(v)
        } else if target == "float"@ {
            Some(DatumView::Float(crate::expr::floats::int_to_f32(x as int)))
        } else if target == "double"@ {
            Some(DatumView::Double(crate::expr::floats::int_to_f64(x as int)))
        } else {
            None
        },
        DatumView::Float(x) => if target == "float"@ {
            Some(v)
        } else if target == "double"@ {
            Some(DatumView::Double(widen_f32(x)))
        } else {
            None
        },
        DatumView::Double(_) => if target == "double"@ { Some(v) } else { None },
        DatumView::Date(_) => if target == "date"@ { Some(v) } else { None },
        DatumView::Time(_) => if target == "time"@ { Some(v) } else { None },
        DatumView::Timestamp(x) => if target == "timestamp"@ {
            Some(v)
        } else if target == "timestamptz"@ {
            Some(DatumView::TimestampTz(x))
        } else {
            None
        },
        DatumView::TimestampTz(x) => if target == "timestamptz"@ {
            Some(v)
        } else if target == "timestamp"@ {
            Some(DatumView::Timestamp(x))
        } else {
            None
        },
        DatumView::String(_) => if target == "string"@ { Some(v) } else { None },
        DatumView::Uuid(_) => if target == "uuid"@ { Some(v) } else { None },
        DatumView::Binary(_) => if target == "binary"@ { Some(v) } else { None },
        DatumView::Fixed(x) => if target == "fixed"@ {
            Some(v)
        } else if target == "binary"@ {
            Some(DatumView::Binary(x))
        } else {
            None
        },
        DatumView::Decimal { .. } => if target == "decimal"@ { Some(v) } else { None },
        _ => None,
    }
}

impl From<bool> for Literal {
    fn from(v: bool) -> (r: Literal)
        ensures
            r@ == DatumView::Boolean(v),
    {
        Literal { value: Datum::Boolean(v) }
    }
}

impl vstd::std_specs::convert::FromSpecImpl<bool> for Literal {
    open spec fn obeys_from_spec() -> bool {
        true
    }

    closed spec fn from_spec(v: bool) -> Literal {
        Literal { value: Datum::Boolean(v) }
    }
}

impl From<i32> for Literal {
    fn from(v: i32) -> (r: Literal)
        ensures
            r@ == DatumView::Int(v),
    {
        Literal { value: Datum::Int(v) }
    }
}

impl vstd::std_specs::convert::FromSpecImpl<i32> for Literal {
    open spec fn obeys_from_spec() -> bool {
        true
    }

    closed spec fn from_spec(v: i32) -> Literal {
        Literal { value: Datum::Int(v) }
    }
}

impl From<i64> for Literal {
    fn from(v: i64) -> (r: Literal)
        ensures
            r@ == DatumView::Long(v),
    {
        Literal { value: Datum::Long(v) }
    }
}

impl vstd::std_specs::convert::FromSpecImpl<i64> for Literal {
    open spec fn obeys_from_spec() -> bool {
        true
    }

    closed spec fn from_spec(v: i64) -> Literal {
        Literal { value: Datum::Long(v) }
    }
}

impl From<String> for Literal {
    fn from(v: String) -> (r: Literal)
        ensures
            r@ == DatumView::String(v@),
    {
        Literal { value: Datum::String(v) }
    }
}

impl vstd::std_specs::convert::FromSpecImpl<String> for Literal {
    open spec fn obeys_from_spec() -> bool {
        true
    }

    closed spec fn from_spec(v: String) -> Literal {
        Literal { value: Datum::String(v) }
    }
}

impl From<Datum> for Literal {
    fn from(v: Datum) -> (r: Literal)
        ensures
            r@ == v@,
    {
        Literal { value: v }
    }
}

impl vstd::std_specs::convert::FromSpecImpl<Datum> for Literal {
    open spec fn obeys_from_spec() -> bool {
        true
    }

    closed spec fn from_spec(v: Datum) -> Literal {
        Literal { value: v }
    }
}

} // verus!
