//! Column references: unbound (by name) and bound (by position in a row).
use vstd::prelude::*;
use super::accessor::{Accessor, field_at};
use super::datum::Datum;
use crate::text::{copy_string, owned, push_str, push_char, push_decimal, push_unsigned, int_decimal, decimal_digits};

verus! {

broadcast use vstd::string::group_string_axioms;

/// An unbound column reference, by name.
#[derive(Debug)]
pub struct Reference {
    name: String,
}

impl View for Reference {
    /// The column name.
    type V = Seq<char>;

    closed spec fn view(&self) -> Seq<char> {
        self.name@
    }
}

/// What a bound reference holds.
pub struct BoundReferenceView {
    pub field_id: i32,
    pub name: Seq<char>,
    pub pos: usize,
    pub type_str: Seq<char>,
}

/// The display form `ref(name)` of an unbound reference.
pub open spec fn reference_text(name: Seq<char>) -> Seq<char> {
    "ref("@ + name + ")"@
}

/// The display form `ref(name, id=ID, pos=POS)` of a bound reference.
pub open spec fn bound_reference_text(r: BoundReferenceView) -> Seq<char> {
    "ref("@ + r.name + ", id="@ + int_decimal(r.field_id as int) + ", pos="@ + decimal_digits(
        r.pos as nat,
    ) + ")"@
}

impl Reference {
    /// A reference to the column with the given name.
    pub fn new(name: &str) -> (r: Reference)
        ensures
            r@ == name@,
    {
        Reference { name: owned(name) }
    }

    /// The column name.
    pub fn name(&self) -> (r: &str)
        ensures
            r@ == self@,
    {
        self.name.as_str()
    }

    /// A copy of this reference.
    pub fn duplicate(&self) -> (r: Reference)
        ensures
            r@ == self@,
    {
        Reference { name: copy_string(&self.name) }
    }

    /// This reference bound to the field with the given id, position and type.
    pub fn bind(&self, field_id: i32, pos: usize, type_str: &str) -> (r: BoundReference)
        ensures
            r@ == (BoundReferenceView { field_id, name: self@, pos, type_str: type_str@ }),
    {
        BoundReference {
            field_id,
            name: copy_string(&self.name),
            pos,
            type_str: owned(type_str),
        }
    }

    /// The display form, `ref(name)`.
    pub fn to_display_string(&self) -> (r: String)
        ensures
            r@ == reference_text(self@),
    {
        let mut out = String::new();
        push_str(&mut out, "ref(");
        push_str(&mut out, self.name.as_str());
        push_char(&mut out, ')');
        proof {
            reveal_strlit("ref(");
            reveal_strlit(")");
        }
        assert(out@ =~= reference_text(self@));
        out
    }
}

/// A bound column reference, by position in a row.
#[derive(Debug)]
pub struct BoundReference {
    field_id: i32,
    name: String,
    pos: usize,
    type_str: String,
}

impl View for BoundReference {
    type V = BoundReferenceView;

    closed spec fn view(&self) -> BoundReferenceView {
        BoundReferenceView {
            field_id: self.field_id,
            name: self.name@,
            pos: self.pos,
            type_str: self.type_str@,
        }
    }
}

impl BoundReference {
    /// A reference to the field with the given id, name, position and type.
    pub fn new(field_id: i32, name: &str, pos: usize, type_str: &str) -> (r: BoundReference)
        ensures
            r@ == (BoundReferenceView { field_id, name: name@, pos, type_str: type_str@ }),
    {
        BoundReference { field_id, name: owned(name), pos, type_str: owned(type_str) }
    }

    /// The field id.
    pub fn field_id(&self) -> (r: i32)
        ensures
            r == self@.field_id,
    {
        self.field_id
    }

    /// The column name.
    pub fn name(&self) -> (r: &str)
        ensures
            r@ == self@.name,
    {
        self.name.as_str()
    }

    /// The position of the field in a row.
    pub fn pos(&self) -> (r: usize)
        ensures
            r == self@.pos,
    {
        self.pos
    }

    /// The name of the field's type.
    pub fn type_str(&self) -> (r: &str)
        ensures
            r@ == self@.type_str,
    {
        self.type_str.as_str()
    }

    /// A copy of this reference.
    pub fn duplicate(&self) -> (r: BoundReference)
        ensures
            r@ == self@,
    {
        BoundReference {
            field_id: self.field_id,
            name: copy_string(&self.name),
            pos: self.pos,
            type_str: copy_string(&self.type_str),
        }
    }

    /// The value of the referenced field in a row.
    pub fn eval<A: Accessor>(&self, accessor: &A) -> (r: Datum)
        ensures
            r@ == field_at(accessor.row(), self@.pos as int),
    {
        accessor.get(self.pos)
    }

    /// The display form, `ref(name, id=ID, pos=POS)`.
    pub fn to_display_string(&self) -> (r: String)
        ensures
            r@ == bound_reference_text(self@),
    {
        let mut out = String::new();
        push_str(&mut out, "ref(");
        push_str(&mut out, self.name.as_str());
        push_str(&mut out, ", id=");
        push_decimal(&mut out, self.field_id as i64);
        push_str(&mut out, ", pos=");
        push_unsigned(&mut out, self.pos as u64);
        push_char(&mut out, ')');
        proof {
            reveal_strlit("ref(");
            reveal_strlit(", id=");
            reveal_strlit(", pos=");
            reveal_strlit(")");
        }
        assert(out@ =~= bound_reference_text(self@));
        out
    }
}

} // verus!
