//! Table schemas: nested fields and their types, lookups by id and name, and
//! projections.
//!
//! The default values of fields are held as JSON text.
use vstd::prelude::*;
use std::collections::{HashMap, HashSet};
use crate::text::{owned, copy_string, str_eq, to_lowercase, lowercase_of, push_str, chars_of};

verus! {

broadcast use vstd::std_specs::hash::group_hash_axioms, vstd::std_specs::vec::group_vec_axioms;

/// A primitive type.
#[derive(Debug, Clone, Copy, PartialEq, Eq, Structural)]
pub enum PrimitiveType {
    Boolean,
    Int,
    Long,
    Float,
    Double,
    Date,
    Time,
    Timestamp,
    Timestamptz,
    String,
    Uuid,
    Binary,
    Fixed(i32),
    Decimal { precision: i32, scale: i32 },
}

/// The type of a field: a primitive named by its text, or a nested type.
#[derive(Debug)]
pub enum Type {
    /// A primitive type, e.g. `long` or `string`
    Primitive(String),
    /// A struct of nested fields
    Struct(StructType),
    /// A list
    List(ListType),
    /// A map
    Mapping(MapType),
}

/// A struct type.
#[derive(Debug)]
pub struct StructType {
    /// The type text, `struct`
    pub type_str: String,
    pub fields: Vec<NestedField>,
}

/// A list type.
#[derive(Debug)]
pub struct ListType {
    /// The type text, `list`
    pub type_str: String,
    pub element_id: i32,
    pub element: Box<Type>,
    pub element_required: bool,
}

/// A map type.
#[derive(Debug)]
pub struct MapType {
    /// The type text, `map`
    pub type_str: String,
    pub key_id: i32,
    pub key: Box<Type>,
    pub value_id: i32,
    pub value: Box<Type>,
    pub value_required: bool,
}

/// A field of a schema or of a struct.
#[derive(Debug)]
pub struct NestedField {
    pub id: i32,
    pub name: String,
    pub required: bool,
    pub field_type: Type,
    pub doc: Option<String>,
    /// Initial default value, as JSON text
    pub initial_default: Option<String>,
    /// Write default value, as JSON text
    pub write_default: Option<String>,
}

/// A field described by a type text.
#[derive(Debug)]
pub struct SchemaField {
    pub id: i32,
    pub name: String,
    /// Type text, e.g. `long`
    pub type_str: String,
    pub required: bool,
}

/// A table schema.
#[derive(Debug)]
pub struct Schema {
    pub schema_id: i32,
    /// The type text, `struct`
    pub struct_type: String,
    pub fields: Vec<NestedField>,
    pub identifier_field_ids: Vec<i32>,
}

// ---------------------------------------------------------------------------
// Views
// ---------------------------------------------------------------------------

/// What a type is.
pub enum TypeView {
    Primitive(Seq<char>),
    Struct { type_str: Seq<char>, fields: Seq<FieldView> },
    List { type_str: Seq<char>, element_id: i32, element: Box<TypeView>, element_required: bool },
    Mapping {
        type_str: Seq<char>,
        key_id: i32,
        key: Box<TypeView>,
        value_id: i32,
        value: Box<TypeView>,
        value_required: bool,
    },
}

/// What a field is.
pub struct FieldView {
    pub id: i32,
    pub name: Seq<char>,
    pub required: bool,
    pub field_type: TypeView,
    pub doc: Option<Seq<char>>,
    pub initial_default: Option<Seq<char>>,
    pub write_default: Option<Seq<char>>,
}

/// The view of optional text.
pub open spec fn opt_text(s: Option<String>) -> Option<Seq<char>> {
    match s {
        Some(t) => Some(t@),
        None => None,
    }
}

/// The view of a type.
pub open spec fn type_view(t: Type) -> TypeView
    decreases t,
{
    match t {
        Type::Primitive(s) => TypeView::Primitive(s@),
        Type::Struct(s) => TypeView::Struct { type_str: s.type_str@, fields: fields_view(s.fields@) },
        Type::List(l) => TypeView::List {
            type_str: l.type_str@,
            element_id: l.element_id,
            element: Box::new(type_view(*l.element)),
            element_required: l.element_required,
        },
        Type::Mapping(m) => TypeView::Mapping {
            type_str: m.type_str@,
            key_id: m.key_id,
            key: Box::new(type_view(*m.key)),
            value_id: m.value_id,
            value: Box::new(type_view(*m.value)),
            value_required: m.value_required,
        },
    }
}

/// The view of a field.
pub open spec fn field_view(f: NestedField) -> FieldView
    decreases f,
{
    FieldView {
        id: f.id,
        name: f.name@,
        required: f.required,
        field_type: type_view(f.field_type),
        doc: opt_text(f.doc),
        initial_default: opt_text(f.initial_default),
        write_default: opt_text(f.write_default),
    }
}

/// The views of a list of fields.
pub open spec fn fields_view(fs: Seq<NestedField>) -> Seq<FieldView>
    decreases fs,
{
    if fs.len() == 0 {
        Seq::empty()
    } else {
        fields_view(fs.drop_last()).push(field_view(fs.last()))
    }
}

impl View for NestedField {
    type V = FieldView;

    open spec fn view(&self) -> FieldView {
        field_view(*self)
    }
}

impl View for Type {
    type V = TypeView;

    open spec fn view(&self) -> TypeView {
        type_view(*self)
    }
}

// ---------------------------------------------------------------------------
// Types and fields
// ---------------------------------------------------------------------------

impl Type {
    /// Whether this is a primitive type.
    pub fn is_primitive(&self) -> (r: bool)
        ensures
            r == (self@ is Primitive),
    {
        match self {
            Type::Primitive(_) => true,
            _ => false,
        }
    }

    /// Whether this is a struct type.
    pub fn is_struct(&self) -> (r: bool)
        ensures
            r == (self@ is Struct),
    {
        match self {
            Type::Struct(_) => true,
            _ => false,
        }
    }

    /// Whether this is a list type.
    pub fn is_list(&self) -> (r: bool)
        ensures
            r == (self@ is List),
    {
        match self {
            Type::List(_) => true,
            _ => false,
        }
    }

    /// Whether this is a map type.
    pub fn is_map(&self) -> (r: bool)
        ensures
            r == (self@ is Mapping),
    {
        match self {
            Type::Mapping(_) => true,
            _ => false,
        }
    }

    /// The name of the type: the text of a primitive, else `struct`, `list` or `map`.
    pub fn type_str(&self) -> (r: &str)
        ensures
            r@ == match self@ {
                TypeView::Primitive(s) => s,
                TypeView::Struct { .. } => "struct"@,
                TypeView::List { .. } => "list"@,
                TypeView::Mapping { .. } => "map"@,
            },
    {
        match self {
            Type::Primitive(s) => s.as_str(),
            Type::Struct(_) => "struct",
            Type::List(_) => "list",
            Type::Mapping(_) => "map",
        }
    }

    /// A copy of the type.
    pub fn duplicate(&self) -> (r: Type)
        ensures
            r@ == self@,
        decreases self,
    {
        match self {
            Type::Primitive(s) => Type::Primitive(copy_string(s)),
            Type::Struct(s) => Type::Struct(StructType { type_str: copy_string(&s.type_str), fields: copy_fields(&s.fields) }),
            Type::List(l) => Type::List(ListType {
                type_str: copy_string(&l.type_str),
                element_id: l.element_id,
                element: Box::new(l.element.duplicate()),
                element_required: l.element_required,
            }),
            Type::Mapping(m) => Type::Mapping(MapType {
                type_str: copy_string(&m.type_str),
                key_id: m.key_id,
                key: Box::new(m.key.duplicate()),
                value_id: m.value_id,
                value: Box::new(m.value.duplicate()),
                value_required: m.value_required,
            }),
        }
    }
}

fn copy_opt(s: &Option<String>) -> (r: Option<String>)
    ensures
        opt_text(r) == opt_text(*s),
{
    match s {
        Some(t) => Some(copy_string(t)),
        None => None,
    }
}

impl NestedField {
    /// A required field.
    pub fn required(id: i32, name: String, field_type: Type) -> (r: NestedField)
        ensures
            r@ == (FieldView {
                id,
                name: name@,
                required: true,
                field_type: field_type@,
                doc: None,
                initial_default: None,
                write_default: None,
            }),
    {
        NestedField { id, name, required: true, field_type, doc: None, initial_default: None, write_default: None }
    }

    /// An optional field.
    pub fn optional(id: i32, name: String, field_type: Type) -> (r: NestedField)
        ensures
            r@ == (FieldView {
                id,
                name: name@,
                required: false,
                field_type: field_type@,
                doc: None,
                initial_default: None,
                write_default: None,
            }),
    {
        NestedField { id, name, required: false, field_type, doc: None, initial_default: None, write_default: None }
    }

    /// The field with documentation.
    pub fn with_doc(self, doc: String) -> (r: NestedField)
        ensures
            r@ == (FieldView { doc: Some(doc@), ..self@ }),
    {
        NestedField { doc: Some(doc), ..self }
    }

    /// A copy of the field.
    pub fn duplicate(&self) -> (r: NestedField)
        ensures
            r@ == self@,
        decreases self,
    {
        NestedField {
            id: self.id,
            name: copy_string(&self.name),
            required: self.required,
            field_type: self.field_type.duplicate(),
            doc: copy_opt(&self.doc),
            initial_default: copy_opt(&self.initial_default),
            write_default: copy_opt(&self.write_default),
        }
    }
}

/// A copy of a list of fields.
fn copy_fields(fields: &Vec<NestedField>) -> (r: Vec<NestedField>)
    ensures
        fields_view(r@) == fields_view(fields@),
    decreases fields,
{
    let mut out: Vec<NestedField> = Vec::new();
    let mut i: usize = 0;
    assert(fields@.take(0) =~= Seq::<NestedField>::empty());
    while i < fields.len()
        invariant
            i <= fields.len(),
            fields_view(out@) == fields_view(fields@.take(i as int)),
        decreases fields.len() - i,
    {
        assert(decreases_to!(fields => fields[i as int]));
        let f = fields[i].duplicate();
        let ghost before = out@;
        out.push(f);
        proof {
            assert(out@.drop_last() =~= before);
            assert(fields@.take(i + 1).drop_last() =~= fields@.take(i as int));
        }
        i = i + 1;
    }
    assert(fields@.take(fields.len() as int) =~= fields@);
    out
}

/// The views of a list of fields are the views of its fields.
pub broadcast proof fn lemma_fields_view(fs: Seq<NestedField>)
    ensures
        #[trigger] fields_view(fs).len() == fs.len(),
        forall|i: int| 0 <= i < fs.len() ==> fields_view(fs)[i] == field_view(#[trigger] fs[i]),
    decreases fs.len(),
{
    if fs.len() > 0 {
        let d = fs.drop_last();
        lemma_fields_view(d);
        assert forall|i: int| 0 <= i < fs.len() implies fields_view(fs)[i] == field_view(#[trigger] fs[i]) by {
            if i < fs.len() - 1 {
                assert(fs[i] == d[i]);
            }
        }
    }
}

// ---------------------------------------------------------------------------
// Names and ids of all nested fields
// ---------------------------------------------------------------------------

/// The full name of a field under a prefix: the name itself at the top, else the
/// prefix, a dot and the name.
pub open spec fn full_name(prefix: Seq<char>, name: Seq<char>) -> Seq<char> {
    if prefix.len() == 0 {
        name
    } else {
        prefix + "."@ + name
    }
}

/// The full names and ids of the fields of a list and of everything nested in them,
/// in order: each field, then what its type nests (a struct's fields; a list's
/// element, then the fields of a struct element; a map's key and value, then the
/// fields of a struct value).
pub open spec fn name_pairs(fs: Seq<FieldView>, prefix: Seq<char>) -> Seq<(Seq<char>, i32)>
    decreases fs,
{
    if fs.len() == 0 {
        Seq::empty()
    } else {
        name_pairs(fs.drop_last(), prefix) + field_pairs(fs.last(), prefix)
    }
}

/// The full names and ids of a field and of what it nests.
pub open spec fn field_pairs(f: FieldView, prefix: Seq<char>) -> Seq<(Seq<char>, i32)>
    decreases f,
{
    let full = full_name(prefix, f.name);
    seq![(full, f.id)] + type_pairs(f.field_type, full)
}

/// The full names and ids of what a type nests, under the full name of its field.
pub open spec fn type_pairs(t: TypeView, full: Seq<char>) -> Seq<(Seq<char>, i32)>
    decreases t,
{
    match t {
        TypeView::Primitive(_) => Seq::empty(),
        TypeView::Struct { fields, .. } => name_pairs(fields, full),
        TypeView::List { element_id, element, .. } => {
            let en = full + ".element"@;
            seq![(en, element_id)] + match *element {
                TypeView::Struct { fields, .. } => name_pairs(fields, en),
                _ => Seq::empty(),
            }
        },
        TypeView::Mapping { key_id, value_id, value, .. } => {
            let kn = full + ".key"@;
            let vn = full + ".value"@;
            seq![(kn, key_id), (vn, value_id)] + match *value {
                TypeView::Struct { fields, .. } => name_pairs(fields, vn),
                _ => Seq::empty(),
            }
        },
    }
}

/// The views of a list of names and ids.
pub open spec fn pairs_view(v: Seq<(String, i32)>) -> Seq<(Seq<char>, i32)> {
    Seq::new(v.len(), |i: int| (v[i].0@, v[i].1))
}

fn dotted(prefix: &str, name: &str) -> (r: String)
    ensures
        r@ == full_name(prefix@, name@),
{
    if chars_of(prefix).len() == 0 {
        owned(name)
    } else {
        let mut out = owned(prefix);
        push_str(&mut out, ".");
        push_str(&mut out, name);
        out
    }
}

fn suffixed(full: &str, suffix: &str) -> (r: String)
    ensures
        r@ == full@ + suffix@,
{
    let mut out = owned(full);
    push_str(&mut out, suffix);
    out
}

fn push_pair(out: &mut Vec<(String, i32)>, name: &String, id: i32)
    ensures
        pairs_view(final(out)@) == pairs_view(old(out)@).push((name@, id)),
{
    out.push((copy_string(name), id));
    assert(pairs_view(out@) =~= pairs_view(old(out)@).push((name@, id)));
}

/// Appends the full names and ids of the fields and of what they nest.
fn collect_pairs(fields: &Vec<NestedField>, prefix: &str, out: &mut Vec<(String, i32)>)
    ensures
        pairs_view(final(out)@) == pairs_view(old(out)@) + name_pairs(fields_view(fields@), prefix@),
    decreases fields,
{
    let ghost base = pairs_view(out@);
    let mut i: usize = 0;
    assert(fields@.take(0) =~= Seq::<NestedField>::empty());
    assert(base + name_pairs(fields_view(fields@.take(0)), prefix@) =~= base);
    while i < fields.len()
        invariant
            i <= fields.len(),
            pairs_view(out@) == base + name_pairs(fields_view(fields@.take(i as int)), prefix@),
        decreases fields.len() - i,
    {
        let field = &fields[i];
        assert(decreases_to!(fields => fields[i as int]));
        let ghost before = pairs_view(out@);
        let full = dotted(prefix, field.name.as_str());
        push_pair(out, &full, field.id);
        match &field.field_type {
            Type::Primitive(_) => {},
            Type::Struct(s) => {
                collect_pairs(&s.fields, full.as_str(), out);
            },
            Type::List(l) => {
                let en = suffixed(full.as_str(), ".element");
                push_pair(out, &en, l.element_id);
                match &*l.element {
                    Type::Struct(s) => {
                        collect_pairs(&s.fields, en.as_str(), out);
                    },
                    _ => {},
                }
            },
            Type::Mapping(m) => {
                let kn = suffixed(full.as_str(), ".key");
                let vn = suffixed(full.as_str(), ".value");
                push_pair(out, &kn, m.key_id);
                push_pair(out, &vn, m.value_id);
                match &*m.value {
                    Type::Struct(s) => {
                        collect_pairs(&s.fields, vn.as_str(), out);
                    },
                    _ => {},
                }
            },
        }
        proof {
            let fv = field_view(*field);
            assert(fields@.take(i + 1).drop_last() =~= fields@.take(i as int));
            assert(fields_view(fields@.take(i + 1)) == fields_view(fields@.take(i as int)).push(fv));
            assert(fields_view(fields@.take(i + 1)).drop_last() =~= fields_view(fields@.take(i as int)));
            assert(pairs_view(out@) =~= before + field_pairs(fv, prefix@));
        }
        i = i + 1;
    }
    assert(fields@.take(fields.len() as int) =~= fields@);
}

/// Every field and every field its struct types nest, each field before what it
/// nests (list elements and map values are not entered).
pub open spec fn struct_fields(fs: Seq<FieldView>) -> Seq<FieldView>
    decreases fs,
{
    if fs.len() == 0 {
        Seq::empty()
    } else {
        struct_fields(fs.drop_last()) + field_and_struct_fields(fs.last())
    }
}

/// A field and the fields its struct type nests.
pub open spec fn field_and_struct_fields(f: FieldView) -> Seq<FieldView>
    decreases f,
{
    seq![f] + match f.field_type {
        TypeView::Struct { fields, .. } => struct_fields(fields),
        _ => Seq::empty(),
    }
}

/// The map from id to field that inserting the fields in order builds.
pub open spec fn fields_id_map(fs: Seq<FieldView>) -> Map<i32, FieldView>
    decreases fs.len(),
{
    if fs.len() == 0 {
        Map::empty()
    } else {
        fields_id_map(fs.drop_last()).insert(fs.last().id, fs.last())
    }
}

/// The views of a list of field references.
pub open spec fn ref_views(v: Seq<&NestedField>) -> Seq<FieldView> {
    Seq::new(v.len(), |i: int| v[i]@)
}

fn collect_struct_fields<'a>(fields: &'a Vec<NestedField>, out: &mut Vec<&'a NestedField>)
    ensures
        ref_views(final(out)@) == ref_views(old(out)@) + struct_fields(fields_view(fields@)),
    decreases fields,
{
    let ghost base = ref_views(out@);
    let mut i: usize = 0;
    assert(fields@.take(0) =~= Seq::<NestedField>::empty());
    assert(base + struct_fields(fields_view(fields@.take(0))) =~= base);
    while i < fields.len()
        invariant
            i <= fields.len(),
            ref_views(out@) == base + struct_fields(fields_view(fields@.take(i as int))),
        decreases fields.len() - i,
    {
        let field = &fields[i];
        assert(decreases_to!(fields => fields[i as int]));
        let ghost before = ref_views(out@);
        out.push(field);
        assert(ref_views(out@) =~= before.push(field@));
        match &field.field_type {
            Type::Struct(st) => {
                collect_struct_fields(&st.fields, out);
            },
            _ => {},
        }
        proof {
            let fv = field_view(*field);
            assert(fields@.take(i + 1).drop_last() =~= fields@.take(i as int));
            assert(fields_view(fields@.take(i + 1)) == fields_view(fields@.take(i as int)).push(fv));
            assert(fields_view(fields@.take(i + 1)).drop_last() =~= fields_view(fields@.take(i as int)));
            assert(ref_views(out@) =~= before + field_and_struct_fields(fv));
        }
        i = i + 1;
    }
    assert(fields@.take(fields.len() as int) =~= fields@);
}

fn position_named(out: &Vec<(&str, &NestedField)>, name: &str) -> (r: Option<usize>)
    ensures
        match r {
            Some(j) => j < out@.len() && out@[j as int].0@ == name@,
            None => forall|a: int| 0 <= a < out@.len() ==> (#[trigger] out@[a]).0@ != name@,
        },
{
    let mut j: usize = 0;
    while j < out.len()
        invariant
            j <= out.len(),
            forall|a: int| 0 <= a < j ==> (#[trigger] out@[a]).0@ != name@,
        decreases out.len() - j,
    {
        if str_eq(out[j].0, name) {
            return Some(j);
        }
        j = j + 1;
    }
    None
}

/// The last of the fields with the name.
pub open spec fn last_named(fs: Seq<FieldView>, name: Seq<char>) -> Option<FieldView>
    decreases fs.len(),
{
    if fs.len() == 0 {
        None
    } else if fs.last().name == name {
        Some(fs.last())
    } else {
        last_named(fs.drop_last(), name)
    }
}

/// The map from id to full name that inserting the pairs in order builds.
pub open spec fn id_map(pairs: Seq<(Seq<char>, i32)>) -> Map<i32, Seq<char>>
    decreases pairs.len(),
{
    if pairs.len() == 0 {
        Map::empty()
    } else {
        id_map(pairs.drop_last()).insert(pairs.last().1, pairs.last().0)
    }
}

/// The ids of the pairs.
pub open spec fn id_set(pairs: Seq<(Seq<char>, i32)>) -> Set<i32>
    decreases pairs.len(),
{
    if pairs.len() == 0 {
        Set::empty()
    } else {
        id_set(pairs.drop_last()).insert(pairs.last().1)
    }
}

/// The greatest id of the pairs, zero when none is greater.
pub open spec fn max_id(pairs: Seq<(Seq<char>, i32)>) -> i32
    decreases pairs.len(),
{
    if pairs.len() == 0 {
        0
    } else {
        let m = max_id(pairs.drop_last());
        if pairs.last().1 > m {
            pairs.last().1
        } else {
            m
        }
    }
}

proof fn lemma_max_id_bounds(pairs: Seq<(Seq<char>, i32)>)
    ensures
        forall|id: i32| #[trigger] id_set(pairs).contains(id) ==> id <= max_id(pairs),
        max_id(pairs) == 0 || id_set(pairs).contains(max_id(pairs)),
    decreases pairs.len(),
{
    if pairs.len() > 0 {
        let rest = pairs.drop_last();
        lemma_max_id_bounds(rest);
        assert forall|id: i32| #[trigger] id_set(pairs).contains(id) implies id <= max_id(pairs) by {
            if id != pairs.last().1 {
                assert(id_set(rest).contains(id));
            }
        }
    }
}

/// The full names and ids of every field of a schema and of what it nests.
pub open spec fn schema_pairs(s: Schema) -> Seq<(Seq<char>, i32)> {
    name_pairs(fields_view(s.fields@), Seq::empty())
}

/// No field id of a schema, nested ones included, exceeds its highest field id; and
/// the highest is one of its ids, or zero.
pub proof fn lemma_highest_field_id_bounds(s: Schema)
    ensures
        forall|id: i32| #[trigger] id_set(schema_pairs(s)).contains(id) ==> id <= max_id(schema_pairs(s)),
        max_id(schema_pairs(s)) == 0 || id_set(schema_pairs(s)).contains(max_id(schema_pairs(s))),
{
    lemma_max_id_bounds(schema_pairs(s));
}

impl Schema {
    /// A schema with the given fields and no identifier fields.
    pub fn new(schema_id: i32, fields: Vec<NestedField>) -> (r: Schema)
        ensures
            r.schema_id == schema_id,
            r.struct_type@ == "struct"@,
            r.fields == fields,
            r.identifier_field_ids@.len() == 0,
    {
        Schema { schema_id, struct_type: owned("struct"), fields, identifier_field_ids: Vec::new() }
    }

    /// Sets the identifier field ids.
    pub fn with_identifier_field_ids(self, ids: Vec<i32>) -> (r: Schema)
        ensures
            r == (Schema { identifier_field_ids: ids, ..self }),
    {
        Schema { identifier_field_ids: ids, ..self }
    }

    /// Whether a field is an identifier field.
    pub fn is_identifier_field(&self, field_id: i32) -> (r: bool)
        ensures
            r == self.identifier_field_ids@.contains(field_id),
    {
        let mut i: usize = 0;
        while i < self.identifier_field_ids.len()
            invariant
                i <= self.identifier_field_ids.len(),
                forall|k: int| 0 <= k < i ==> self.identifier_field_ids@[k] != field_id,
            decreases self.identifier_field_ids.len() - i,
        {
            if self.identifier_field_ids[i] == field_id {
                return true;
            }
            i = i + 1;
        }
        false
    }

    /// The full name and id of every field and of what it nests, in order; a name
    /// that occurs twice counts by its last pair.
    pub fn name_to_id(&self) -> (r: Vec<(String, i32)>)
        ensures
            pairs_view(r@) == schema_pairs(*self),
    {
        let mut out: Vec<(String, i32)> = Vec::new();
        proof {
            reveal_strlit("");
            assert(""@ =~= Seq::<char>::empty());
        }
        collect_pairs(&self.fields, "", &mut out);
        proof {
            assert(pairs_view(Seq::<(String, i32)>::empty()) =~= Seq::<(Seq<char>, i32)>::empty());
            assert(Seq::<(Seq<char>, i32)>::empty() + schema_pairs(*self) =~= schema_pairs(*self));
        }
        out
    }

    /// Every field by its id, the fields of nested struct types included (a later
    /// field with the same id takes the place of an earlier one).
    pub fn fields_by_id(&self) -> (r: HashMap<i32, &NestedField>)
        ensures
            r@.map_values(|f: &NestedField| f@) == fields_id_map(struct_fields(fields_view(self.fields@))),
    {
        let mut all: Vec<&NestedField> = Vec::new();
        collect_struct_fields(&self.fields, &mut all);
        assert(ref_views(Seq::<&NestedField>::empty()) + struct_fields(fields_view(self.fields@)) =~= struct_fields(
            fields_view(self.fields@),
        ));
        let ghost fv = ref_views(all@);
        let mut m: HashMap<i32, &NestedField> = HashMap::new();
        let mut i: usize = 0;
        assert(m@.map_values(|f: &NestedField| f@) =~= Map::<i32, FieldView>::empty());
        assert(fv.take(0) =~= Seq::<FieldView>::empty());
        while i < all.len()
            invariant
                i <= all.len(),
                fv == ref_views(all@),
                m@.map_values(|f: &NestedField| f@) == fields_id_map(fv.take(i as int)),
            decreases all.len() - i,
        {
            let f = all[i];
            m.insert(f.id, f);
            assert(fv.take(i + 1).drop_last() =~= fv.take(i as int));
            assert(m@.map_values(|f: &NestedField| f@) =~= fields_id_map(fv.take(i as int)).insert(f.id, f@));
            i = i + 1;
        }
        assert(fv.take(all.len() as int) =~= fv);
        m
    }

    /// Every top-level field by its name, once per name: the last field with that
    /// name, in the order the names first occur.
    pub fn fields_by_name(&self) -> (r: Vec<(&str, &NestedField)>)
        ensures
            forall|i: int, j: int| 0 <= i < j < r@.len() ==> (#[trigger] r@[i]).0@ != (#[trigger] r@[j]).0@,
            forall|i: int|
                0 <= i < r@.len() ==> last_named(fields_view(self.fields@), (#[trigger] r@[i]).0@) == Some(
                    r@[i].1@,
                ),
            forall|k: int|
                0 <= k < self.fields@.len() ==> exists|i: int|
                    0 <= i < r@.len() && (#[trigger] r@[i]).0@ == (#[trigger] self.fields@[k]).name@,
    {
        broadcast use lemma_fields_view;
        let ghost fv = fields_view(self.fields@);
        let mut out: Vec<(&str, &NestedField)> = Vec::new();
        let mut i: usize = 0;
        while i < self.fields.len()
            invariant
                i <= self.fields.len(),
                fv == fields_view(self.fields@),
                fv.len() == self.fields@.len(),
                forall|a: int, b: int| 0 <= a < b < out@.len() ==> (#[trigger] out@[a]).0@ != (#[trigger] out@[b]).0@,
                forall|a: int|
                    0 <= a < out@.len() ==> last_named(fv.take(i as int), (#[trigger] out@[a]).0@) == Some(
                        out@[a].1@,
                    ),
                forall|k: int|
                    0 <= k < i ==> exists|a: int|
                        0 <= a < out@.len() && (#[trigger] out@[a]).0@ == (#[trigger] self.fields@[k]).name@,
            decreases self.fields.len() - i,
        {
            let field = &self.fields[i];
            proof {
                lemma_fields_view(self.fields@);
            }
            assert(fv[i as int] == field@);
            assert(fv.take(i + 1).drop_last() =~= fv.take(i as int));
            assert(fv.take(i + 1).last() == field@);
            let name = field.name.as_str();
            let pos = position_named(&out, name);
            if let Some(j) = pos {
                let ghost old_out = out@;
                out.set(j, (name, field));
                assert forall|a: int| 0 <= a < out@.len() implies last_named(fv.take(i + 1), (#[trigger] out@[a]).0@)
                    == Some(out@[a].1@) by {
                    if a != j {
                        assert(out@[a] == old_out[a]);
                        assert(old_out[a].0@ != old_out[j as int].0@);
                    }
                }
                assert forall|k: int| 0 <= k < i + 1 implies exists|a: int|
                    0 <= a < out@.len() && (#[trigger] out@[a]).0@ == (#[trigger] self.fields@[k]).name@ by {
                    if k < i {
                        let a0 = choose|a: int| 0 <= a < old_out.len() && #[trigger] old_out[a].0@ == self.fields@[k].name@;
                        assert(out@[a0].0@ == old_out[a0].0@);
                    } else {
                        assert(out@[j as int].0@ == self.fields@[k].name@);
                    }
                }
            } else {
                let ghost old_out = out@;
                out.push((name, field));
                assert forall|a: int| 0 <= a < out@.len() implies last_named(fv.take(i + 1), (#[trigger] out@[a]).0@)
                    == Some(out@[a].1@) by {
                    if a < old_out.len() {
                        assert(out@[a] == old_out[a]);
                    }
                }
                assert forall|k: int| 0 <= k < i + 1 implies exists|a: int|
                    0 <= a < out@.len() && (#[trigger] out@[a]).0@ == (#[trigger] self.fields@[k]).name@ by {
                    if k < i {
                        let a0 = choose|a: int| 0 <= a < old_out.len() && #[trigger] old_out[a].0@ == self.fields@[k].name@;
                        assert(out@[a0] == old_out[a0]);
                    } else {
                        assert(out@[old_out.len() as int].0@ == self.fields@[k].name@);
                    }
                }
            }
            i = i + 1;
        }
        assert(fv.take(self.fields.len() as int) =~= fv);
        out
    }

    /// The full name of every field id.
    pub fn id_to_name(&self) -> (r: HashMap<i32, String>)
        ensures
            r@.map_values(|s: String| s@) == id_map(schema_pairs(*self)),
    {
        let pairs = self.name_to_id();
        let ghost pv = pairs_view(pairs@);
        let mut m: HashMap<i32, String> = HashMap::new();
        let mut i: usize = 0;
        assert(m@.map_values(|s: String| s@) =~= Map::<i32, Seq<char>>::empty());
        assert(pv.take(0) =~= Seq::<(Seq<char>, i32)>::empty());
        while i < pairs.len()
            invariant
                i <= pairs.len(),
                pv == pairs_view(pairs@),
                m@.map_values(|s: String| s@) == id_map(pv.take(i as int)),
            decreases pairs.len() - i,
        {
            assert(pv.take(i + 1).drop_last() =~= pv.take(i as int));
            let ghost before = m@.map_values(|s: String| s@);
            let name = copy_string(&pairs[i].0);
            let ghost nv = name@;
            m.insert(pairs[i].1, name);
            assert(m@.map_values(|s: String| s@) =~= before.insert(pv[i as int].1, nv));
            i = i + 1;
        }
        assert(pv.take(pairs.len() as int) =~= pv);
        m
    }

    /// Every field id, nested ones and list elements, map keys and values included.
    pub fn all_field_ids(&self) -> (r: HashSet<i32>)
        ensures
            r@ == id_set(schema_pairs(*self)),
    {
        let pairs = self.name_to_id();
        let ghost pv = pairs_view(pairs@);
        let mut ids: HashSet<i32> = HashSet::new();
        let mut i: usize = 0;
        assert(pv.take(0) =~= Seq::<(Seq<char>, i32)>::empty());
        while i < pairs.len()
            invariant
                i <= pairs.len(),
                pv == pairs_view(pairs@),
                ids@ == id_set(pv.take(i as int)),
            decreases pairs.len() - i,
        {
            assert(pv.take(i + 1).drop_last() =~= pv.take(i as int));
            ids.insert(pairs[i].1);
            i = i + 1;
        }
        assert(pv.take(pairs.len() as int) =~= pv);
        ids
    }

    /// The greatest field id, nested ones and list elements, map keys and values
    /// included; zero when none is greater.
    pub fn highest_field_id(&self) -> (r: i32)
        ensures
            r == max_id(schema_pairs(*self)),
    {
        let pairs = self.name_to_id();
        let ghost pv = pairs_view(pairs@);
        let mut max: i32 = 0;
        let mut i: usize = 0;
        assert(pv.take(0) =~= Seq::<(Seq<char>, i32)>::empty());
        while i < pairs.len()
            invariant
                i <= pairs.len(),
                pv == pairs_view(pairs@),
                max == max_id(pv.take(i as int)),
            decreases pairs.len() - i,
        {
            assert(pv.take(i + 1).drop_last() =~= pv.take(i as int));
            if pairs[i].1 > max {
                max = pairs[i].1;
            }
            i = i + 1;
        }
        assert(pv.take(pairs.len() as int) =~= pv);
        max
    }
}

impl Default for Schema {
    fn default() -> (r: Schema)
        ensures
            r.schema_id == 0,
            r.struct_type@ == "struct"@,
            r.fields@.len() == 0,
            r.identifier_field_ids@.len() == 0,
    {
        Schema::new(0, Vec::new())
    }
}

// ---------------------------------------------------------------------------
// Lookups
// ---------------------------------------------------------------------------

/// The first field with the id, looking at each field, then at the fields its type
/// nests (a struct's, or those of a list's struct element or a map's struct value),
/// then at the next field.
pub open spec fn find_in(fs: Seq<FieldView>, id: i32) -> Option<FieldView>
    decreases fs,
{
    if fs.len() == 0 {
        None
    } else if fs[0].id == id {
        Some(fs[0])
    } else {
        match find_nested(fs[0].field_type, id) {
            Some(f) => Some(f),
            None => find_in(fs.drop_first(), id),
        }
    }
}

/// The first field with the id among the fields a type nests.
pub open spec fn find_nested(t: TypeView, id: i32) -> Option<FieldView>
    decreases t,
{
    match t {
        TypeView::Struct { fields, .. } => find_in(fields, id),
        TypeView::List { element, .. } => match *element {
            TypeView::Struct { fields, .. } => find_in(fields, id),
            _ => None,
        },
        TypeView::Mapping { value, .. } => match *value {
            TypeView::Struct { fields, .. } => find_in(fields, id),
            _ => None,
        },
        _ => None,
    }
}

fn find_field_by_id<'a>(fields: &'a Vec<NestedField>, id: i32) -> (r: Option<&'a NestedField>)
    ensures
        match r {
            Some(f) => find_in(fields_view(fields@), id) == Some(f@),
            None => find_in(fields_view(fields@), id) is None,
        },
    decreases fields,
{
    broadcast use lemma_fields_view;
    let ghost fv = fields_view(fields@);
    let mut i: usize = 0;
    assert(fv.skip(0) =~= fv);
    while i < fields.len()
        invariant
            i <= fields.len(),
            fv == fields_view(fields@),
            fv.len() == fields.len(),
            find_in(fv, id) == find_in(fv.skip(i as int), id),
        decreases fields.len() - i,
    {
        let field = &fields[i];
        assert(decreases_to!(fields => fields[i as int]));
        proof {
            lemma_fields_view(fields@);
        }
        assert(fv[i as int] == field_view(fields@[i as int]));
        assert(fv.skip(i as int)[0] == field@);
        assert(fv.skip(i as int).drop_first() =~= fv.skip(i + 1));
        if field.id == id {
            return Some(field);
        }
        let nested = match &field.field_type {
            Type::Struct(s) => find_field_by_id(&s.fields, id),
            Type::List(l) => match &*l.element {
                Type::Struct(s) => {
                    assert(type_view(*l.element) == (TypeView::Struct { type_str: s.type_str@, fields: fields_view(s.fields@) }));
                    find_field_by_id(&s.fields, id)
                },
                _ => {
                    assert(!(type_view(*l.element) is Struct));
                    None
                },
            },
            Type::Mapping(m) => match &*m.value {
                Type::Struct(s) => {
                    assert(type_view(*m.value) == (TypeView::Struct { type_str: s.type_str@, fields: fields_view(s.fields@) }));
                    find_field_by_id(&s.fields, id)
                },
                _ => {
                    assert(!(type_view(*m.value) is Struct));
                    None
                },
            },
            _ => None,
        };
        assert(match nested {
            Some(f) => find_nested(field@.field_type, id) == Some(f@),
            None => find_nested(field@.field_type, id) is None,
        });
        match nested {
            Some(f) => {
                return Some(f);
            },
            None => {},
        }
        i = i + 1;
    }
    assert(fv.skip(i as int) =~= Seq::<FieldView>::empty());
    None
}

/// The first top-level field whose name `same` accepts.
pub open spec fn first_named(fs: Seq<FieldView>, name: Seq<char>, fold_case: bool) -> Option<FieldView>
    decreases fs.len(),
{
    if fs.len() == 0 {
        None
    } else if (if fold_case {
        lowercase_of(fs[0].name) == lowercase_of(name)
    } else {
        fs[0].name == name
    }) {
        Some(fs[0])
    } else {
        first_named(fs.drop_first(), name, fold_case)
    }
}

fn find_named<'a>(fields: &'a Vec<NestedField>, name: &str, fold_case: bool) -> (r: Option<&'a NestedField>)
    ensures
        match r {
            Some(f) => first_named(fields_view(fields@), name@, fold_case) == Some(f@),
            None => first_named(fields_view(fields@), name@, fold_case) is None,
        },
{
    broadcast use lemma_fields_view;
    let ghost fv = fields_view(fields@);
    let lower = to_lowercase(name);
    let mut i: usize = 0;
    assert(fv.skip(0) =~= fv);
    while i < fields.len()
        invariant
            i <= fields.len(),
            fv == fields_view(fields@),
            fv.len() == fields.len(),
            lower@ == lowercase_of(name@),
            first_named(fv, name@, fold_case) == first_named(fv.skip(i as int), name@, fold_case),
        decreases fields.len() - i,
    {
        let field = &fields[i];
        proof {
            lemma_fields_view(fields@);
        }
        assert(fv[i as int] == field_view(fields@[i as int]));
        assert(fv.skip(i as int)[0] == field@);
        assert(fv.skip(i as int).drop_first() =~= fv.skip(i + 1));
        let hit = if fold_case {
            let l = to_lowercase(field.name.as_str());
            str_eq(l.as_str(), lower.as_str())
        } else {
            str_eq(field.name.as_str(), name)
        };
        if hit {
            return Some(field);
        }
        i = i + 1;
    }
    assert(fv.skip(i as int) =~= Seq::<FieldView>::empty());
    None
}

impl Schema {
    /// The first field with the id, nested fields included.
    pub fn field(&self, id: i32) -> (r: Option<&NestedField>)
        ensures
            match r {
                Some(f) => find_in(fields_view(self.fields@), id) == Some(f@),
                None => find_in(fields_view(self.fields@), id) is None,
            },
    {
        find_field_by_id(&self.fields, id)
    }

    /// The first top-level field with the name.
    pub fn field_by_name(&self, name: &str) -> (r: Option<&NestedField>)
        ensures
            match r {
                Some(f) => first_named(fields_view(self.fields@), name@, false) == Some(f@),
                None => first_named(fields_view(self.fields@), name@, false) is None,
            },
    {
        find_named(&self.fields, name, false)
    }

    /// The first top-level field whose name is the name in lower case.
    pub fn field_by_name_case_insensitive(&self, name: &str) -> (r: Option<&NestedField>)
        ensures
            match r {
                Some(f) => first_named(fields_view(self.fields@), name@, true) == Some(f@),
                None => first_named(fields_view(self.fields@), name@, true) is None,
            },
    {
        find_named(&self.fields, name, true)
    }
}

// ---------------------------------------------------------------------------
// Projections
// ---------------------------------------------------------------------------

/// A struct type of the given fields.
pub open spec fn struct_of(fields: Seq<FieldView>) -> TypeView {
    TypeView::Struct { type_str: "struct"@, fields }
}

/// The fields kept when selecting the ids: each field in order, kept as
/// [`select_one`] says.
pub open spec fn select_view(fs: Seq<FieldView>, ids: Set<i32>, children: bool) -> Seq<FieldView>
    decreases fs,
{
    if fs.len() == 0 {
        Seq::empty()
    } else {
        select_view(fs.drop_last(), ids, children) + select_one(fs.last(), ids, children)
    }
}

/// What is kept of a field when selecting the ids. A selected field is kept whole
/// when children come with it; otherwise a selected struct keeps only its selected
/// fields. A field that is not selected is kept, cut down to what is selected
/// below it, when something is: a struct's fields, a list's element (or the fields of
/// its struct element), a map's key or value (or the fields of its struct value).
pub open spec fn select_one(f: FieldView, ids: Set<i32>, children: bool) -> Seq<FieldView>
    decreases f,
{
    if ids.contains(f.id) {
        if children {
            seq![f]
        } else {
            match f.field_type {
                TypeView::Struct { fields, .. } => seq![
                    FieldView { field_type: struct_of(select_view(fields, ids, false)), ..f },
                ],
                _ => seq![f],
            }
        }
    } else {
        match f.field_type {
            TypeView::Struct { fields, .. } => {
                let n = select_view(fields, ids, children);
                if n.len() > 0 {
                    seq![FieldView { field_type: struct_of(n), ..f }]
                } else {
                    Seq::empty()
                }
            },
            TypeView::List { element_id, element, element_required, .. } => if ids.contains(element_id) {
                seq![f]
            } else {
                match *element {
                    TypeView::Struct { fields, .. } => {
                        let n = select_view(fields, ids, children);
                        if n.len() > 0 {
                            seq![
                                FieldView {
                                    field_type: TypeView::List {
                                        type_str: "list"@,
                                        element_id,
                                        element: Box::new(struct_of(n)),
                                        element_required,
                                    },
                                    ..f
                                },
                            ]
                        } else {
                            Seq::empty()
                        }
                    },
                    _ => Seq::empty(),
                }
            },
            TypeView::Mapping { key_id, key, value_id, value, value_required, .. } => if ids.contains(key_id)
                || ids.contains(value_id) {
                seq![f]
            } else {
                match *value {
                    TypeView::Struct { fields, .. } => {
                        let n = select_view(fields, ids, children);
                        if n.len() > 0 {
                            seq![
                                FieldView {
                                    field_type: TypeView::Mapping {
                                        type_str: "map"@,
                                        key_id,
                                        key,
                                        value_id,
                                        value: Box::new(struct_of(n)),
                                        value_required,
                                    },
                                    ..f
                                },
                            ]
                        } else {
                            Seq::empty()
                        }
                    },
                    _ => Seq::empty(),
                }
            },
            TypeView::Primitive(_) => Seq::empty(),
        }
    }
}

fn struct_type_of(fields: Vec<NestedField>) -> (r: Type)
    ensures
        r@ == struct_of(fields_view(fields@)),
{
    Type::Struct(StructType { type_str: owned("struct"), fields })
}

fn with_type(f: &NestedField, field_type: Type) -> (r: NestedField)
    ensures
        r@ == (FieldView { field_type: field_type@, ..f@ }),
{
    NestedField {
        id: f.id,
        name: copy_string(&f.name),
        required: f.required,
        field_type,
        doc: copy_opt(&f.doc),
        initial_default: copy_opt(&f.initial_default),
        write_default: copy_opt(&f.write_default),
    }
}

/// What is kept of one field.
fn select_field(field: &NestedField, ids: &HashSet<i32>, children: bool) -> (r: Vec<NestedField>)
    ensures
        fields_view(r@) == select_one(field@, ids@, children),
    decreases field,
{
    broadcast use lemma_fields_view;
    let mut out: Vec<NestedField> = Vec::new();
    if ids.contains(&field.id) {
        if children {
            out.push(field.duplicate());
        } else {
            match &field.field_type {
                Type::Struct(s) => {
                    let nested = select_fields(&s.fields, ids, false);
                    out.push(with_type(field, struct_type_of(nested)));
                },
                _ => {
                    out.push(field.duplicate());
                },
            }
        }
    } else {
        match &field.field_type {
            Type::Struct(s) => {
                let nested = select_fields(&s.fields, ids, children);
                if nested.len() > 0 {
                    out.push(with_type(field, struct_type_of(nested)));
                }
            },
            Type::List(l) => {
                if ids.contains(&l.element_id) {
                    out.push(field.duplicate());
                } else {
                    match &*l.element {
                        Type::Struct(s) => {
                            let nested = select_fields(&s.fields, ids, children);
                            if nested.len() > 0 {
                                let t = Type::List(ListType {
                                    type_str: owned("list"),
                                    element_id: l.element_id,
                                    element: Box::new(struct_type_of(nested)),
                                    element_required: l.element_required,
                                });
                                out.push(with_type(field, t));
                            }
                        },
                        _ => {},
                    }
                }
            },
            Type::Mapping(m) => {
                if ids.contains(&m.key_id) || ids.contains(&m.value_id) {
                    out.push(field.duplicate());
                } else {
                    match &*m.value {
                        Type::Struct(s) => {
                            let nested = select_fields(&s.fields, ids, children);
                            if nested.len() > 0 {
                                let t = Type::Mapping(MapType {
                                    type_str: owned("map"),
                                    key_id: m.key_id,
                                    key: Box::new(m.key.duplicate()),
                                    value_id: m.value_id,
                                    value: Box::new(struct_type_of(nested)),
                                    value_required: m.value_required,
                                });
                                out.push(with_type(field, t));
                            }
                        },
                        _ => {},
                    }
                }
            },
            Type::Primitive(_) => {},
        }
    }
    assert(fields_view(out@) =~= select_one(field@, ids@, children));
    out
}

/// What is kept of a list of fields.
fn select_fields(fields: &Vec<NestedField>, ids: &HashSet<i32>, children: bool) -> (r: Vec<NestedField>)
    ensures
        fields_view(r@) == select_view(fields_view(fields@), ids@, children),
    decreases fields,
{
    broadcast use lemma_fields_view;
    let mut out: Vec<NestedField> = Vec::new();
    let mut i: usize = 0;
    assert(fields@.take(0) =~= Seq::<NestedField>::empty());
    while i < fields.len()
        invariant
            i <= fields.len(),
            fields_view(out@) == select_view(fields_view(fields@.take(i as int)), ids@, children),
        decreases fields.len() - i,
    {
        assert(decreases_to!(fields => fields[i as int]));
        let ghost before = out@;
        let mut one = select_field(&fields[i], ids, children);
        let ghost ov = one@;
        out.append(&mut one);
        proof {
            assert(fields@.take(i + 1).drop_last() =~= fields@.take(i as int));
            assert(fields_view(fields@.take(i + 1)).drop_last() =~= fields_view(fields@.take(i as int)));
            lemma_fields_view(out@);
            lemma_fields_view(before);
            lemma_fields_view(ov);
            assert(out@ =~= before + ov);
            assert forall|k: int| 0 <= k < out@.len() implies fields_view(out@)[k] == (fields_view(before) + fields_view(ov))[k] by {
                if k < before.len() {
                    assert(out@[k] == before[k]);
                } else {
                    assert(out@[k] == ov[k - before.len()]);
                }
            }
            assert(fields_view(out@) =~= fields_view(before) + fields_view(ov));
        }
        i = i + 1;
    }
    assert(fields@.take(fields.len() as int) =~= fields@);
    out
}

/// The identifier ids that are selected, in order.
pub open spec fn kept_ids(ids: Seq<i32>, selected: Set<i32>) -> Seq<i32> {
    ids.filter(|id: i32| selected.contains(id))
}

fn filter_ids(ids: &Vec<i32>, selected: &HashSet<i32>) -> (r: Vec<i32>)
    ensures
        r@ == kept_ids(ids@, selected@),
{
    let mut out: Vec<i32> = Vec::new();
    let mut i: usize = 0;
    assert(ids@.take(0) =~= Seq::<i32>::empty());
    proof {
        reveal(Seq::filter);
    }
    while i < ids.len()
        invariant
            i <= ids.len(),
            out@ == kept_ids(ids@.take(i as int), selected@),
        decreases ids.len() - i,
    {
        assert(ids@.take(i + 1).drop_last() =~= ids@.take(i as int));
        proof {
            reveal(Seq::filter);
        }
        if selected.contains(&ids[i]) {
            out.push(ids[i]);
        }
        i = i + 1;
    }
    assert(ids@.take(ids.len() as int) =~= ids@);
    out
}

impl Schema {
    /// The schema cut down to the selected ids, a selected field with everything
    /// below it; identifier ids that are not selected are dropped.
    pub fn select(&self, field_ids: &HashSet<i32>) -> (r: Schema)
        ensures
            r.schema_id == self.schema_id,
            r.struct_type@ == "struct"@,
            fields_view(r.fields@) == select_view(fields_view(self.fields@), field_ids@, true),
            r.identifier_field_ids@ == kept_ids(self.identifier_field_ids@, field_ids@),
    {
        Schema {
            schema_id: self.schema_id,
            struct_type: owned("struct"),
            fields: select_fields(&self.fields, field_ids, true),
            identifier_field_ids: filter_ids(&self.identifier_field_ids, field_ids),
        }
    }

    /// The schema cut down to exactly the selected ids: a selected struct keeps only
    /// its selected fields.
    pub fn project(&self, field_ids: &HashSet<i32>) -> (r: Schema)
        ensures
            r.schema_id == self.schema_id,
            r.struct_type@ == "struct"@,
            fields_view(r.fields@) == select_view(fields_view(self.fields@), field_ids@, false),
            r.identifier_field_ids@ == kept_ids(self.identifier_field_ids@, field_ids@),
    {
        Schema {
            schema_id: self.schema_id,
            struct_type: owned("struct"),
            fields: select_fields(&self.fields, field_ids, false),
            identifier_field_ids: filter_ids(&self.identifier_field_ids, field_ids),
        }
    }
}

/// The ids of the first top-level fields with the given names, those that exist.
pub open spec fn named_ids(fs: Seq<FieldView>, names: Seq<Seq<char>>, fold_case: bool) -> Set<i32>
    decreases names.len(),
{
    if names.len() == 0 {
        Set::empty()
    } else {
        let s = named_ids(fs, names.drop_last(), fold_case);
        match first_named(fs, names.last(), fold_case) {
            Some(f) => s.insert(f.id),
            None => s,
        }
    }
}

/// The texts of a list of names.
pub open spec fn names_view(names: Seq<&str>) -> Seq<Seq<char>> {
    Seq::new(names.len(), |i: int| names[i]@)
}

impl Schema {
    /// The schema cut down to the top-level fields with the given names (compared in
    /// lower case unless case-sensitive), with everything below them.
    pub fn select_by_name(&self, names: &[&str], case_sensitive: bool) -> (r: Schema)
        ensures
            ({
                let ids = named_ids(fields_view(self.fields@), names_view(names@), !case_sensitive);
                &&& r.schema_id == self.schema_id
                &&& r.struct_type@ == "struct"@
                &&& fields_view(r.fields@) == select_view(fields_view(self.fields@), ids, true)
                &&& r.identifier_field_ids@ == kept_ids(self.identifier_field_ids@, ids)
            }),
    {
        let ghost nv = names_view(names@);
        let mut selected: HashSet<i32> = HashSet::new();
        let mut i: usize = 0;
        assert(nv.take(0) =~= Seq::<Seq<char>>::empty());
        while i < names.len()
            invariant
                i <= names.len(),
                nv == names_view(names@),
                selected@ == named_ids(fields_view(self.fields@), nv.take(i as int), !case_sensitive),
            decreases names.len() - i,
        {
            assert(nv.take(i + 1).drop_last() =~= nv.take(i as int));
            assert(nv.take(i + 1).last() == names[i as int]@);
            let found = if case_sensitive {
                self.field_by_name(names[i])
            } else {
                self.field_by_name_case_insensitive(names[i])
            };
            match found {
                Some(f) => {
                    selected.insert(f.id);
                },
                None => {},
            }
            i = i + 1;
        }
        assert(nv.take(names.len() as int) =~= nv);
        self.select(&selected)
    }
}

// ---------------------------------------------------------------------------
// Equality of schemas
// ---------------------------------------------------------------------------

fn opt_eq(a: &Option<String>, b: &Option<String>) -> (r: bool)
    ensures
        r == (opt_text(*a) == opt_text(*b)),
{
    match (a, b) {
        (Some(x), Some(y)) => str_eq(x.as_str(), y.as_str()),
        (None, None) => true,
        _ => false,
    }
}

fn types_equal(a: &Type, b: &Type) -> (r: bool)
    ensures
        r == (a@ == b@),
    decreases a,
{
    match (a, b) {
        (Type::Primitive(x), Type::Primitive(y)) => str_eq(x.as_str(), y.as_str()),
        (Type::Struct(x), Type::Struct(y)) => str_eq(x.type_str.as_str(), y.type_str.as_str()) && fields_equal(
            &x.fields,
            &y.fields,
        ),
        (Type::List(x), Type::List(y)) => {
            let same = str_eq(x.type_str.as_str(), y.type_str.as_str()) && x.element_id == y.element_id
                && x.element_required == y.element_required && types_equal(&x.element, &y.element);
            assert(same ==> a@ == b@);
            same
        },
        (Type::Mapping(x), Type::Mapping(y)) => {
            let same = str_eq(x.type_str.as_str(), y.type_str.as_str()) && x.key_id == y.key_id && x.value_id
                == y.value_id && x.value_required == y.value_required && types_equal(&x.key, &y.key) && types_equal(
                &x.value,
                &y.value,
            );
            assert(same ==> a@ == b@);
            same
        },
        _ => false,
    }
}

fn field_equal(a: &NestedField, b: &NestedField) -> (r: bool)
    ensures
        r == (a@ == b@),
    decreases a,
{
    a.id == b.id && str_eq(a.name.as_str(), b.name.as_str()) && a.required == b.required && types_equal(
        &a.field_type,
        &b.field_type,
    ) && opt_eq(&a.doc, &b.doc) && opt_eq(&a.initial_default, &b.initial_default) && opt_eq(
        &a.write_default,
        &b.write_default,
    )
}

fn fields_equal(a: &Vec<NestedField>, b: &Vec<NestedField>) -> (r: bool)
    ensures
        r == (fields_view(a@) == fields_view(b@)),
    decreases a,
{
    proof {
        lemma_fields_view(a@);
        lemma_fields_view(b@);
    }
    if a.len() != b.len() {
        return false;
    }
    let mut i: usize = 0;
    while i < a.len()
        invariant
            i <= a.len(),
            a.len() == b.len(),
            fields_view(a@).len() == a.len(),
            fields_view(b@).len() == b.len(),
            forall|k: int| 0 <= k < fields_view(a@).len() ==> fields_view(a@)[k] == field_view(#[trigger] a@[k]),
            forall|k: int| 0 <= k < fields_view(b@).len() ==> fields_view(b@)[k] == field_view(#[trigger] b@[k]),
            forall|k: int| 0 <= k < i ==> field_view(#[trigger] a@[k]) == field_view(b@[k]),
        decreases a.len() - i,
    {
        assert(decreases_to!(a => a[i as int]));
        if !field_equal(&a[i], &b[i]) {
            assert(fields_view(a@)[i as int] != fields_view(b@)[i as int]);
            return false;
        }
        i = i + 1;
    }
    assert(fields_view(a@) =~= fields_view(b@)) by {
        assert forall|k: int| 0 <= k < a.len() implies fields_view(a@)[k] == fields_view(b@)[k] by {
            assert(field_view(a@[k]) == field_view(b@[k]));
        }
    }
    true
}

impl Schema {
    /// Whether two schemas have the same fields and identifier fields (their ids may
    /// differ).
    pub fn same_schema(&self, other: &Schema) -> (r: bool)
        ensures
            r == (fields_view(self.fields@) == fields_view(other.fields@) && self.identifier_field_ids@
                == other.identifier_field_ids@),
    {
        if !fields_equal(&self.fields, &other.fields) {
            return false;
        }
        let a = &self.identifier_field_ids;
        let b = &other.identifier_field_ids;
        if a.len() != b.len() {
            return false;
        }
        let mut i: usize = 0;
        while i < a.len()
            invariant
                i <= a.len(),
                a.len() == b.len(),
                a@ == self.identifier_field_ids@,
                b@ == other.identifier_field_ids@,
                fields_view(self.fields@) == fields_view(other.fields@),
                forall|k: int| 0 <= k < i ==> a@[k] == b@[k],
            decreases a.len() - i,
        {
            if a[i] != b[i] {
                assert(a@[i as int] != b@[i as int]);
                return false;
            }
            i = i + 1;
        }
        assert(a@ =~= b@);
        true
    }
}

} // verus!
