//! Binding: resolving the column names of unbound predicates against a schema.
use vstd::prelude::*;
use super::evaluator::{BoundExpressionTree, TreeView, tree_and, tree_or, tree_not};
use super::literal::Literal;
use super::operation::Operation;
use super::predicate::{BoundPredicate, BoundPredicateView, UnboundPredicate, UnboundPredicateView, literal_views};
use super::reference::{BoundReference, BoundReferenceView, Reference};
use crate::text::{copy_string, owned, push_str, str_eq, to_lowercase, lowercase_of};

verus! {

broadcast use vstd::string::group_string_axioms;

/// What a schema field holds.
pub struct SchemaFieldView {
    pub field_id: i32,
    pub name: Seq<char>,
    pub type_str: Seq<char>,
    pub position: usize,
    pub required: bool,
}

/// A field of a schema, as the binder sees it.
#[derive(Debug)]
pub struct SchemaField {
    /// Field ID
    pub field_id: i32,
    /// Field name
    pub name: String,
    /// Name of the field's type
    pub type_str: String,
    /// Field position in struct
    pub position: usize,
    /// Whether the field is required
    pub required: bool,
}

impl View for SchemaField {
    type V = SchemaFieldView;

    open spec fn view(&self) -> SchemaFieldView {
        SchemaFieldView {
            field_id: self.field_id,
            name: self.name@,
            type_str: self.type_str@,
            position: self.position,
            required: self.required,
        }
    }
}

impl SchemaField {
    /// An optional field.
    pub fn new(field_id: i32, name: &str, type_str: &str, position: usize) -> (r: SchemaField)
        ensures
            r@ == (SchemaFieldView { field_id, name: name@, type_str: type_str@, position, required: false }),
    {
        SchemaField { field_id, name: owned(name), type_str: owned(type_str), position, required: false }
    }

    /// This field with the required flag set as given.
    pub fn required(self, required: bool) -> (r: SchemaField)
        ensures
            r@ == (SchemaFieldView { required, ..self@ }),
    {
        let mut f = self;
        f.required = required;
        f
    }

    /// A copy of this field.
    pub fn duplicate(&self) -> (r: SchemaField)
        ensures
            r@ == self@,
    {
        SchemaField {
            field_id: self.field_id,
            name: copy_string(&self.name),
            type_str: copy_string(&self.type_str),
            position: self.position,
            required: self.required,
        }
    }
}

/// The views of a sequence of fields.
pub open spec fn field_views(fs: Seq<SchemaField>) -> Seq<SchemaFieldView> {
    Seq::new(fs.len(), |i: int| fs[i]@)
}

/// The last index below `n` at which `f` holds.
pub open spec fn last_where(n: nat, f: spec_fn(int) -> bool) -> Option<int>
    decreases n,
{
    if n == 0 {
        None
    } else if f(n - 1) {
        Some(n - 1)
    } else {
        last_where((n - 1) as nat, f)
    }
}

proof fn lemma_last_where(n: nat, f: spec_fn(int) -> bool)
    ensures
        last_where(n, f) matches Some(i) ==> 0 <= i < n && f(i),
        last_where(n, f) is None ==> forall|i: int| 0 <= i < n ==> !#[trigger] f(i),
    decreases n,
{
    if n > 0 && !f(n - 1) {
        lemma_last_where((n - 1) as nat, f);
    }
}

/// The field a name resolves to: the last field added under that name.
pub open spec fn field_named(fields: Seq<SchemaFieldView>, name: Seq<char>) -> Option<SchemaFieldView> {
    match last_where(fields.len(), |i: int| fields[i].name == name) {
        Some(i) => Some(fields[i]),
        None => None,
    }
}

/// The field a name resolves to ignoring case: the last field whose lower-cased name
/// is the lower-cased `name`.
pub open spec fn field_named_ignoring_case(fields: Seq<SchemaFieldView>, name: Seq<char>) -> Option<SchemaFieldView> {
    match last_where(fields.len(), |i: int| lowercase_of(fields[i].name) == lowercase_of(name)) {
        Some(i) => Some(fields[i]),
        None => None,
    }
}

/// The field an id resolves to: the last field added with that id.
pub open spec fn field_with_id(fields: Seq<SchemaFieldView>, id: i32) -> Option<SchemaFieldView> {
    match last_where(fields.len(), |i: int| fields[i].field_id == id) {
        Some(i) => Some(fields[i]),
        None => None,
    }
}

/// A schema as the binder sees it: fields found by name, by name ignoring case, and by
/// id, a later field taking the place of an earlier one with the same key.
#[derive(Debug)]
pub struct Schema {
    fields: Vec<SchemaField>,
    lower_names: Vec<String>,
}

impl Schema {
    /// The fields, in the order they were added.
    pub closed spec fn fields(&self) -> Seq<SchemaFieldView> {
        field_views(self.fields@)
    }

    /// The lower-cased names are those of the fields.
    pub closed spec fn wf(&self) -> bool {
        &&& self.lower_names.len() == self.fields.len()
        &&& forall|i: int| 0 <= i < self.fields.len() ==> #[trigger] self.lower_names@[i]@ == lowercase_of(self.fields@[i].name@)
    }

    /// A builder for a schema.
    pub fn builder() -> (r: SchemaBuilder)
        ensures
            r.fields() == Seq::<SchemaFieldView>::empty(),
    {
        SchemaBuilder::new()
    }

    /// The field with the given name.
    pub fn field(&self, name: &str) -> (r: Option<&SchemaField>)
        requires
            self.wf(),
        ensures
            match r {
                Some(f) => field_named(self.fields(), name@) == Some(f@),
                None => field_named(self.fields(), name@) is None,
            },
    {
        let ghost f = |i: int| self.fields()[i].name == name@;
        let mut i = self.fields.len();
        while i > 0
            invariant
                i <= self.fields.len(),
                f == (|i: int| self.fields()[i].name == name@),
                last_where(self.fields.len() as nat, f) == last_where(i as nat, f),
            decreases i,
        {
            if str_eq(self.fields[i - 1].name.as_str(), name) {
                return Some(&self.fields[i - 1]);
            }
            i = i - 1;
        }
        None
    }

    /// The field whose name equals `name` ignoring case.
    pub fn field_case_insensitive(&self, name: &str) -> (r: Option<&SchemaField>)
        requires
            self.wf(),
        ensures
            match r {
                Some(f) => field_named_ignoring_case(self.fields(), name@) == Some(f@),
                None => field_named_ignoring_case(self.fields(), name@) is None,
            },
    {
        let lower = to_lowercase(name);
        let ghost f = |i: int| lowercase_of(self.fields()[i].name) == lowercase_of(name@);
        let mut i = self.fields.len();
        while i > 0
            invariant
                i <= self.fields.len(),
                self.wf(),
                lower@ == lowercase_of(name@),
                f == (|i: int| lowercase_of(self.fields()[i].name) == lowercase_of(name@)),
                last_where(self.fields.len() as nat, f) == last_where(i as nat, f),
            decreases i,
        {
            assert(self.lower_names@[i - 1]@ == lowercase_of(self.fields@[i - 1].name@));
            if str_eq(self.lower_names[i - 1].as_str(), lower.as_str()) {
                return Some(&self.fields[i - 1]);
            }
            i = i - 1;
        }
        None
    }

    /// The field with the given id.
    pub fn field_by_id(&self, id: i32) -> (r: Option<&SchemaField>)
        ensures
            match r {
                Some(f) => field_with_id(self.fields(), id) == Some(f@),
                None => field_with_id(self.fields(), id) is None,
            },
    {
        let ghost f = |i: int| self.fields()[i].field_id == id;
        let mut i = self.fields.len();
        while i > 0
            invariant
                i <= self.fields.len(),
                f == (|i: int| self.fields()[i].field_id == id),
                last_where(self.fields.len() as nat, f) == last_where(i as nat, f),
            decreases i,
        {
            if self.fields[i - 1].field_id == id {
                return Some(&self.fields[i - 1]);
            }
            i = i - 1;
        }
        None
    }

    /// The distinct field names.
    pub fn field_names(&self) -> (r: Vec<String>)
        ensures
            forall|n: Seq<char>| #[trigger] names_hold(r@, n) <==> field_named(self.fields(), n) is Some,
            forall|i: int, j: int| 0 <= i < j < r.len() ==> r@[i]@ != r@[j]@,
    {
        let mut names: Vec<String> = Vec::new();
        let mut k: usize = 0;
        while k < self.fields.len()
            invariant
                k <= self.fields.len(),
                forall|n: Seq<char>|
                    #![trigger names_hold(names@, n)]
                    #![trigger names_in_prefix(self.fields@, k as int, n)]
                    names_hold(names@, n) <==> names_in_prefix(self.fields@, k as int, n),
                forall|i: int, j: int| 0 <= i < j < names.len() ==> names@[i]@ != names@[j]@,
            decreases self.fields.len() - k,
        {
            let name = &self.fields[k].name;
            let mut seen = false;
            let mut m: usize = 0;
            while m < names.len()
                invariant
                    m <= names.len(),
                    seen == names_hold(names@.take(m as int), name@),
                decreases names.len() - m,
            {
                assert(names@.take(m + 1) =~= names@.take(m as int).push(names@[m as int]));
                if str_eq(names[m].as_str(), name.as_str()) {
                    seen = true;
                    assert(names@.take(m + 1)[m as int]@ == name@);
                } else {
                    assert forall|i: int| 0 <= i < m + 1 && names@.take(m + 1)[i]@ == name@ implies i < m && names@.take(m as int)[i]@ == name@ by {}
                }
                m = m + 1;
            }
            assert(names@.take(m as int) =~= names@);
            let ghost before = names@;
            if !seen {
                names.push(copy_string(name));
                assert(names@[names.len() - 1]@ == name@);
            }
            k = k + 1;
            assert forall|n: Seq<char>| names_hold(names@, n) <==> names_in_prefix(self.fields@, k as int, n) by {
                if names_in_prefix(self.fields@, k as int, n) {
                    let j = choose|j: int| 0 <= j < k && #[trigger] self.fields@[j].name@ == n;
                    if j < k - 1 {
                        assert(names_in_prefix(self.fields@, k - 1, n));
                        assert(names_hold(before, n));
                        let i = choose|i: int| 0 <= i < before.len() && #[trigger] before[i]@ == n;
                        assert(names@[i]@ == n);
                    } else if !seen {
                        assert(names@[names.len() - 1]@ == n);
                    } else {
                        let i = choose|i: int| 0 <= i < before.len() && #[trigger] before[i]@ == name@;
                        assert(names@[i]@ == n);
                    }
                }
                if names_hold(names@, n) {
                    let i = choose|i: int| 0 <= i < names.len() && #[trigger] names@[i]@ == n;
                    if i < before.len() {
                        assert(before[i]@ == n);
                        assert(names_hold(before, n));
                        assert(names_in_prefix(self.fields@, k - 1, n));
                        let j = choose|j: int| 0 <= j < k - 1 && #[trigger] self.fields@[j].name@ == n;
                        assert(self.fields@[j].name@ == n);
                    } else {
                        assert(self.fields@[k - 1].name@ == n);
                    }
                }
            }
        }
        assert forall|n: Seq<char>| #[trigger] names_hold(names@, n) <==> field_named(self.fields(), n) is Some by {
            let f = |i: int| self.fields()[i].name == n;
            lemma_last_where(self.fields.len() as nat, f);
            if names_in_prefix(self.fields@, self.fields.len() as int, n) {
                let j = choose|j: int| 0 <= j < self.fields.len() && #[trigger] self.fields@[j].name@ == n;
                assert(f(j));
            }
            if field_named(self.fields(), n) is Some {
                let j = last_where(self.fields.len() as nat, f)->0;
                assert(self.fields@[j].name@ == n);
            }
        }
        names
    }
}

/// Whether one of `names` is `n`.
pub open spec fn names_hold(names: Seq<String>, n: Seq<char>) -> bool {
    exists|i: int| 0 <= i < names.len() && #[trigger] names[i]@ == n
}

/// Whether one of the first `k` fields is named `n`.
pub open spec fn names_in_prefix(fields: Seq<SchemaField>, k: int, n: Seq<char>) -> bool {
    exists|j: int| 0 <= j < k && #[trigger] fields[j].name@ == n
}

/// A builder for a schema.
#[derive(Debug)]
pub struct SchemaBuilder {
    fields: Vec<SchemaField>,
}

impl SchemaBuilder {
    /// The fields added so far.
    pub closed spec fn fields(&self) -> Seq<SchemaFieldView> {
        field_views(self.fields@)
    }

    /// A builder without fields.
    pub fn new() -> (r: SchemaBuilder)
        ensures
            r.fields() == Seq::<SchemaFieldView>::empty(),
    {
        let r = SchemaBuilder { fields: Vec::new() };
        assert(r.fields() =~= Seq::<SchemaFieldView>::empty());
        r
    }

    /// Adds an optional field at the next position.
    pub fn field(self, field_id: i32, name: &str, type_str: &str) -> (r: SchemaBuilder)
        ensures
            r.fields() == self.fields().push(
                SchemaFieldView {
                    field_id,
                    name: name@,
                    type_str: type_str@,
                    position: self.fields().len() as usize,
                    required: false,
                },
            ),
    {
        let mut fields = self.fields;
        let position = fields.len();
        fields.push(SchemaField::new(field_id, name, type_str, position));
        let r = SchemaBuilder { fields };
        assert(r.fields() =~= self.fields().push(r.fields().last()));
        r
    }

    /// Adds a required field at the next position.
    pub fn required_field(self, field_id: i32, name: &str, type_str: &str) -> (r: SchemaBuilder)
        ensures
            r.fields() == self.fields().push(
                SchemaFieldView {
                    field_id,
                    name: name@,
                    type_str: type_str@,
                    position: self.fields().len() as usize,
                    required: true,
                },
            ),
    {
        let mut fields = self.fields;
        let position = fields.len();
        fields.push(SchemaField::new(field_id, name, type_str, position).required(true));
        let r = SchemaBuilder { fields };
        assert(r.fields() =~= self.fields().push(r.fields().last()));
        r
    }

    /// The schema of the fields added.
    pub fn build(self) -> (r: Schema)
        ensures
            r.wf(),
            r.fields() == self.fields(),
    {
        let fields = self.fields;
        let mut lower_names: Vec<String> = Vec::new();
        let mut i: usize = 0;
        while i < fields.len()
            invariant
                i <= fields.len(),
                lower_names.len() == i,
                forall|j: int| 0 <= j < i ==> #[trigger] lower_names@[j]@ == lowercase_of(fields@[j].name@),
            decreases fields.len() - i,
        {
            lower_names.push(to_lowercase(fields[i].name.as_str()));
            i = i + 1;
        }
        Schema { fields, lower_names }
    }
}

/// An error while binding.
#[derive(Debug, PartialEq, Eq)]
pub enum BindError {
    /// Field not found in schema
    FieldNotFound(String),
    /// Type mismatch
    TypeMismatch { field: String, expected: String, actual: String },
    /// Invalid expression
    InvalidExpression(String),
}

/// The text of a binding error.
pub open spec fn bind_error_text(e: BindError) -> Seq<char> {
    match e {
        BindError::FieldNotFound(name) => "Field not found: "@ + name@,
        BindError::TypeMismatch { field, expected, actual } => "Type mismatch for field "@ + field@ + ": expected "@
            + expected@ + ", got "@ + actual@,
        BindError::InvalidExpression(msg) => "Invalid expression: "@ + msg@,
    }
}

impl BindError {
    /// The text of the error.
    pub fn to_display_string(&self) -> (r: String)
        ensures
            r@ == bind_error_text(*self),
    {
        let mut s = String::new();
        match self {
            BindError::FieldNotFound(name) => {
                push_str(&mut s, "Field not found: ");
                push_str(&mut s, name.as_str());
            },
            BindError::TypeMismatch { field, expected, actual } => {
                push_str(&mut s, "Type mismatch for field ");
                push_str(&mut s, field.as_str());
                push_str(&mut s, ": expected ");
                push_str(&mut s, expected.as_str());
                push_str(&mut s, ", got ");
                push_str(&mut s, actual.as_str());
            },
            BindError::InvalidExpression(msg) => {
                push_str(&mut s, "Invalid expression: ");
                push_str(&mut s, msg.as_str());
            },
        }
        s
    }
}

/// The field a name resolves to, by exact name or ignoring case.
pub open spec fn resolve(fields: Seq<SchemaFieldView>, case_sensitive: bool, name: Seq<char>) -> Option<SchemaFieldView> {
    if case_sensitive {
        field_named(fields, name)
    } else {
        field_named_ignoring_case(fields, name)
    }
}

/// The reference a predicate on `f` is bound with.
pub open spec fn reference_to(f: SchemaFieldView) -> BoundReferenceView {
    BoundReferenceView { field_id: f.field_id, name: f.name, pos: f.position, type_str: f.type_str }
}

/// Binds predicates to a schema.
#[derive(Debug)]
pub struct Binder {
    schema: Schema,
    case_sensitive: bool,
}

impl Binder {
    /// The fields of the schema bound against.
    pub closed spec fn fields(&self) -> Seq<SchemaFieldView> {
        self.schema.fields()
    }

    /// Whether names must match exactly.
    pub closed spec fn is_case_sensitive(&self) -> bool {
        self.case_sensitive
    }

    /// The schema is well formed.
    pub closed spec fn wf(&self) -> bool {
        self.schema.wf()
    }

    /// A case-sensitive binder for `schema`.
    pub fn new(schema: Schema) -> (r: Binder)
        requires
            schema.wf(),
        ensures
            r.wf(),
            r.fields() == schema.fields(),
            r.is_case_sensitive(),
    {
        Binder { schema, case_sensitive: true }
    }

    /// This binder with case sensitivity set as given.
    pub fn case_sensitive(self, case_sensitive: bool) -> (r: Binder)
        ensures
            r.wf() == self.wf(),
            r.fields() == self.fields(),
            r.is_case_sensitive() == case_sensitive,
    {
        let mut b = self;
        b.case_sensitive = case_sensitive;
        b
    }

    /// The field `name` resolves to.
    fn resolve_field(&self, name: &str) -> (r: Result<&SchemaField, BindError>)
        requires
            self.wf(),
        ensures
            match r {
                Ok(f) => resolve(self.fields(), self.is_case_sensitive(), name@) == Some(f@),
                Err(e) => resolve(self.fields(), self.is_case_sensitive(), name@) is None
                    && (e matches BindError::FieldNotFound(n) && n@ == name@),
            },
    {
        let field = if self.case_sensitive {
            self.schema.field(name)
        } else {
            self.schema.field_case_insensitive(name)
        };
        match field {
            Some(f) => Ok(f),
            None => Err(BindError::FieldNotFound(owned(name))),
        }
    }

    /// The predicate bound to the field its column name resolves to; an error naming
    /// the column when it resolves to none.
    pub fn bind_predicate(&self, predicate: &UnboundPredicate) -> (r: Result<BoundPredicate, BindError>)
        requires
            self.wf(),
        ensures
            match resolve(self.fields(), self.is_case_sensitive(), predicate@.term()) {
                Some(f) => r matches Ok(p) && bound_as(p@, predicate@, reference_to(f)),
                None => r matches Err(BindError::FieldNotFound(n)) && n@ == predicate@.term(),
            },
    {
        let field = self.resolve_field(predicate.term().name())?;
        let bound_ref = BoundReference::new(
            field.field_id,
            field.name.as_str(),
            field.position,
            field.type_str.as_str(),
        );
        Ok(predicate.bind(bound_ref))
    }

    /// The predicate bound as by `bind_predicate`, as a tree.
    pub fn bind_to_tree(&self, predicate: &UnboundPredicate) -> (r: Result<BoundExpressionTree, BindError>)
        requires
            self.wf(),
        ensures
            match resolve(self.fields(), self.is_case_sensitive(), predicate@.term()) {
                Some(f) => r matches Ok(t) && t@ matches TreeView::Predicate(p) && bound_as(
                    p,
                    predicate@,
                    reference_to(f),
                ),
                None => r matches Err(BindError::FieldNotFound(n)) && n@ == predicate@.term(),
            },
    {
        let bound = self.bind_predicate(predicate)?;
        Ok(BoundExpressionTree::predicate(bound))
    }
}

/// Whether `b` is `u` bound to the field referenced by `r`: same kind and operation,
/// the same literal, and for a set predicate the distinct values of its literals.
pub open spec fn bound_as(b: BoundPredicateView, u: UnboundPredicateView, r: BoundReferenceView) -> bool {
    match u {
        UnboundPredicateView::Unary { op, .. } => b == BoundPredicateView::Unary { op, term: r },
        UnboundPredicateView::Literal { op, literal, .. } => b == BoundPredicateView::Literal {
            op,
            term: r,
            literal,
        },
        UnboundPredicateView::InSet { op, literals, .. } => b matches BoundPredicateView::InSet {
            op: bop,
            term,
            values,
        } && bop == op && term == r && values.no_duplicates() && values.to_set() == literals.to_set(),
    }
}

/// Builds bound expression trees for the columns of a schema.
pub struct ExpressionBuilder {
    binder: Binder,
}

impl ExpressionBuilder {
    /// The binder used.
    pub closed spec fn binder(&self) -> Binder {
        self.binder
    }

    /// A builder binding against `schema`, case-sensitively.
    pub fn new(schema: Schema) -> (r: ExpressionBuilder)
        requires
            schema.wf(),
        ensures
            r.binder().wf(),
            r.binder().fields() == schema.fields(),
            r.binder().is_case_sensitive(),
    {
        ExpressionBuilder { binder: Binder::new(schema) }
    }

    /// This builder with case sensitivity set as given.
    pub fn case_sensitive(self, case_sensitive: bool) -> (r: ExpressionBuilder)
        ensures
            r.binder().wf() == self.binder().wf(),
            r.binder().fields() == self.binder().fields(),
            r.binder().is_case_sensitive() == case_sensitive,
    {
        ExpressionBuilder { binder: self.binder.case_sensitive(case_sensitive) }
    }

    /// `column op value`, bound.
    fn compare(&self, op: Operation, column: &str, value: Literal) -> (r: Result<BoundExpressionTree, BindError>)
        requires
            self.binder().wf(),
        ensures
            match resolve(self.binder().fields(), self.binder().is_case_sensitive(), column@) {
                Some(f) => r matches Ok(t) && t@ == TreeView::Predicate(
                    BoundPredicateView::Literal { op, term: reference_to(f), literal: value@ },
                ),
                None => r matches Err(BindError::FieldNotFound(n)) && n@ == column@,
            },
    {
        let pred = UnboundPredicate::literal(op, Reference::new(column), value);
        self.binder.bind_to_tree(&pred)
    }

    /// `column op`, bound, for a unary operation.
    fn unary(&self, op: Operation, column: &str) -> (r: Result<BoundExpressionTree, BindError>)
        requires
            self.binder().wf(),
        ensures
            match resolve(self.binder().fields(), self.binder().is_case_sensitive(), column@) {
                Some(f) => r matches Ok(t) && t@ == TreeView::Predicate(
                    BoundPredicateView::Unary { op, term: reference_to(f) },
                ),
                None => r matches Err(BindError::FieldNotFound(n)) && n@ == column@,
            },
    {
        let pred = UnboundPredicate::unary(op, Reference::new(column));
        self.binder.bind_to_tree(&pred)
    }

    /// `column op (values)`, bound, for a set operation.
    fn set_of(&self, op: Operation, column: &str, values: Vec<Literal>) -> (r: Result<BoundExpressionTree, BindError>)
        requires
            self.binder().wf(),
        ensures
            match resolve(self.binder().fields(), self.binder().is_case_sensitive(), column@) {
                Some(f) => r matches Ok(t) && t@ matches TreeView::Predicate(p) && bound_as(
                    p,
                    UnboundPredicateView::InSet { op, term: column@, literals: literal_views(values@) },
                    reference_to(f),
                ),
                None => r matches Err(BindError::FieldNotFound(n)) && n@ == column@,
            },
    {
        let pred = UnboundPredicate::set(op, Reference::new(column), values);
        self.binder.bind_to_tree(&pred)
    }

    /// `column = value`.
    pub fn equal(&self, column: &str, value: Literal) -> (r: Result<BoundExpressionTree, BindError>)
        requires
            self.binder().wf(),
        ensures
            match resolve(self.binder().fields(), self.binder().is_case_sensitive(), column@) {
                Some(f) => r matches Ok(t) && t@ == TreeView::Predicate(
                    BoundPredicateView::Literal { op: Operation::Eq, term: reference_to(f), literal: value@ },
                ),
                None => r matches Err(BindError::FieldNotFound(n)) && n@ == column@,
            },
    {
        self.compare(Operation::Eq, column, value)
    }

    /// `column != value`.
    pub fn not_equal(&self, column: &str, value: Literal) -> (r: Result<BoundExpressionTree, BindError>)
        requires
            self.binder().wf(),
        ensures
            match resolve(self.binder().fields(), self.binder().is_case_sensitive(), column@) {
                Some(f) => r matches Ok(t) && t@ == TreeView::Predicate(
                    BoundPredicateView::Literal { op: Operation::NotEq, term: reference_to(f), literal: value@ },
                ),
                None => r matches Err(BindError::FieldNotFound(n)) && n@ == column@,
            },
    {
        self.compare(Operation::NotEq, column, value)
    }

    /// `column < value`.
    pub fn less_than(&self, column: &str, value: Literal) -> (r: Result<BoundExpressionTree, BindError>)
        requires
            self.binder().wf(),
        ensures
            match resolve(self.binder().fields(), self.binder().is_case_sensitive(), column@) {
                Some(f) => r matches Ok(t) && t@ == TreeView::Predicate(
                    BoundPredicateView::Literal { op: Operation::Lt, term: reference_to(f), literal: value@ },
                ),
                None => r matches Err(BindError::FieldNotFound(n)) && n@ == column@,
            },
    {
        self.compare(Operation::Lt, column, value)
    }

    /// `column <= value`.
    pub fn less_than_or_equal(&self, column: &str, value: Literal) -> (r: Result<BoundExpressionTree, BindError>)
        requires
            self.binder().wf(),
        ensures
            match resolve(self.binder().fields(), self.binder().is_case_sensitive(), column@) {
                Some(f) => r matches Ok(t) && t@ == TreeView::Predicate(
                    BoundPredicateView::Literal { op: Operation::LtEq, term: reference_to(f), literal: value@ },
                ),
                None => r matches Err(BindError::FieldNotFound(n)) && n@ == column@,
            },
    {
        self.compare(Operation::LtEq, column, value)
    }

    /// `column > value`.
    pub fn greater_than(&self, column: &str, value: Literal) -> (r: Result<BoundExpressionTree, BindError>)
        requires
            self.binder().wf(),
        ensures
            match resolve(self.binder().fields(), self.binder().is_case_sensitive(), column@) {
                Some(f) => r matches Ok(t) && t@ == TreeView::Predicate(
                    BoundPredicateView::Literal { op: Operation::Gt, term: reference_to(f), literal: value@ },
                ),
                None => r matches Err(BindError::FieldNotFound(n)) && n@ == column@,
            },
    {
        self.compare(Operation::Gt, column, value)
    }

    /// `column >= value`.
    pub fn greater_than_or_equal(&self, column: &str, value: Literal) -> (r: Result<BoundExpressionTree, BindError>)
        requires
            self.binder().wf(),
        ensures
            match resolve(self.binder().fields(), self.binder().is_case_sensitive(), column@) {
                Some(f) => r matches Ok(t) && t@ == TreeView::Predicate(
                    BoundPredicateView::Literal { op: Operation::GtEq, term: reference_to(f), literal: value@ },
                ),
                None => r matches Err(BindError::FieldNotFound(n)) && n@ == column@,
            },
    {
        self.compare(Operation::GtEq, column, value)
    }

    /// `column IS NULL`.
    pub fn is_null(&self, column: &str) -> (r: Result<BoundExpressionTree, BindError>)
        requires
            self.binder().wf(),
        ensures
            match resolve(self.binder().fields(), self.binder().is_case_sensitive(), column@) {
                Some(f) => r matches Ok(t) && t@ == TreeView::Predicate(
                    BoundPredicateView::Unary { op: Operation::IsNull, term: reference_to(f) },
                ),
                None => r matches Err(BindError::FieldNotFound(n)) && n@ == column@,
            },
    {
        self.unary(Operation::IsNull, column)
    }

    /// `column IS NOT NULL`.
    pub fn not_null(&self, column: &str) -> (r: Result<BoundExpressionTree, BindError>)
        requires
            self.binder().wf(),
        ensures
            match resolve(self.binder().fields(), self.binder().is_case_sensitive(), column@) {
                Some(f) => r matches Ok(t) && t@ == TreeView::Predicate(
                    BoundPredicateView::Unary { op: Operation::NotNull, term: reference_to(f) },
                ),
                None => r matches Err(BindError::FieldNotFound(n)) && n@ == column@,
            },
    {
        self.unary(Operation::NotNull, column)
    }

    /// `column IN (values)`.
    pub fn in_list(&self, column: &str, values: Vec<Literal>) -> (r: Result<BoundExpressionTree, BindError>)
        requires
            self.binder().wf(),
        ensures
            match resolve(self.binder().fields(), self.binder().is_case_sensitive(), column@) {
                Some(f) => r matches Ok(t) && t@ matches TreeView::Predicate(p) && bound_as(
                    p,
                    UnboundPredicateView::InSet { op: Operation::In, term: column@, literals: literal_views(values@) },
                    reference_to(f),
                ),
                None => r matches Err(BindError::FieldNotFound(n)) && n@ == column@,
            },
    {
        self.set_of(Operation::In, column, values)
    }

    /// `column NOT IN (values)`.
    pub fn not_in(&self, column: &str, values: Vec<Literal>) -> (r: Result<BoundExpressionTree, BindError>)
        requires
            self.binder().wf(),
        ensures
            match resolve(self.binder().fields(), self.binder().is_case_sensitive(), column@) {
                Some(f) => r matches Ok(t) && t@ matches TreeView::Predicate(p) && bound_as(
                    p,
                    UnboundPredicateView::InSet { op: Operation::NotIn, term: column@, literals: literal_views(values@) },
                    reference_to(f),
                ),
                None => r matches Err(BindError::FieldNotFound(n)) && n@ == column@,
            },
    {
        self.set_of(Operation::NotIn, column, values)
    }

    /// `column STARTS WITH prefix`.
    pub fn starts_with(&self, column: &str, prefix: &str) -> (r: Result<BoundExpressionTree, BindError>)
        requires
            self.binder().wf(),
        ensures
            match resolve(self.binder().fields(), self.binder().is_case_sensitive(), column@) {
                Some(f) => r matches Ok(t) && t@ == TreeView::Predicate(
                    BoundPredicateView::Literal {
                        op: Operation::StartsWith,
                        term: reference_to(f),
                        literal: super::datum::DatumView::String(prefix@),
                    },
                ),
                None => r matches Err(BindError::FieldNotFound(n)) && n@ == column@,
            },
    {
        self.compare(Operation::StartsWith, column, Literal::string(prefix))
    }

    /// The simplified conjunction of two trees.
    pub fn and(&self, left: BoundExpressionTree, right: BoundExpressionTree) -> (r: BoundExpressionTree)
        ensures
            r@ == tree_and(left@, right@),
    {
        BoundExpressionTree::and(left, right)
    }

    /// The simplified disjunction of two trees.
    pub fn or(&self, left: BoundExpressionTree, right: BoundExpressionTree) -> (r: BoundExpressionTree)
        ensures
            r@ == tree_or(left@, right@),
    {
        BoundExpressionTree::or(left, right)
    }

    /// The simplified negation of a tree.
    pub fn not(&self, child: BoundExpressionTree) -> (r: BoundExpressionTree)
        ensures
            r@ == tree_not(child@),
    {
        BoundExpressionTree::not(child)
    }

    /// The tree that always holds.
    pub fn always_true(&self) -> (r: BoundExpressionTree)
        ensures
            r@ == TreeView::True,
    {
        BoundExpressionTree::always_true()
    }

    /// The tree that never holds.
    pub fn always_false(&self) -> (r: BoundExpressionTree)
        ensures
            r@ == TreeView::False,
    {
        BoundExpressionTree::always_false()
    }
}

} // verus!
