//! Predicates: unary (IS NULL, IS NAN, ...), comparisons with a literal, and set
//! membership (IN, NOT IN).
use vstd::prelude::*;
use super::accessor::{Accessor, field_at, datum_views};
use super::datum::{Datum, DatumView, datum_order_code, datum_is_nan, compare_code, lemma_order_code_range};
use super::literal::Literal;
use super::operation::{Operation, negated_op};
use super::reference::{BoundReference, BoundReferenceView, Reference};
use crate::text::{has_prefix, starts_with};

verus! {

broadcast use vstd::string::group_string_axioms;

/// The values of a sequence of literals.
pub open spec fn literal_views(ls: Seq<Literal>) -> Seq<DatumView> {
    Seq::new(ls.len(), |i: int| ls[i]@)
}

/// What an unbound predicate holds.
pub enum UnboundPredicateView {
    Unary { op: Operation, term: Seq<char> },
    Literal { op: Operation, term: Seq<char>, literal: DatumView },
    InSet { op: Operation, term: Seq<char>, literals: Seq<DatumView> },
}

impl UnboundPredicateView {
    /// The operation of the predicate.
    pub open spec fn op(self) -> Operation {
        match self {
            UnboundPredicateView::Unary { op, .. } => op,
            UnboundPredicateView::Literal { op, .. } => op,
            UnboundPredicateView::InSet { op, .. } => op,
        }
    }

    /// The referenced column name.
    pub open spec fn term(self) -> Seq<char> {
        match self {
            UnboundPredicateView::Unary { term, .. } => term,
            UnboundPredicateView::Literal { term, .. } => term,
            UnboundPredicateView::InSet { term, .. } => term,
        }
    }

    /// The same predicate with another operation.
    pub open spec fn with_op(self, op: Operation) -> UnboundPredicateView {
        match self {
            UnboundPredicateView::Unary { term, .. } => UnboundPredicateView::Unary { op, term },
            UnboundPredicateView::Literal { term, literal, .. } => UnboundPredicateView::Literal {
                op,
                term,
                literal,
            },
            UnboundPredicateView::InSet { term, literals, .. } => UnboundPredicateView::InSet {
                op,
                term,
                literals,
            },
        }
    }
}

/// A predicate on a column given by name.
#[derive(Debug)]
pub enum UnboundPredicate {
    /// IS NULL, NOT NULL, IS NAN, NOT NAN
    Unary { op: Operation, term: Reference },
    /// Comparison with a single value
    Literal { op: Operation, term: Reference, literal: Literal },
    /// IN, NOT IN
    InSet { op: Operation, term: Reference, literals: Vec<Literal> },
}

impl View for UnboundPredicate {
    type V = UnboundPredicateView;

    open spec fn view(&self) -> UnboundPredicateView {
        match self {
            UnboundPredicate::Unary { op, term } => UnboundPredicateView::Unary { op: *op, term: term@ },
            UnboundPredicate::Literal { op, term, literal } => UnboundPredicateView::Literal {
                op: *op,
                term: term@,
                literal: literal@,
            },
            UnboundPredicate::InSet { op, term, literals } => UnboundPredicateView::InSet {
                op: *op,
                term: term@,
                literals: literal_views(literals@),
            },
        }
    }
}

/// Copies of the given literals.
fn copy_literals(ls: &Vec<Literal>) -> (r: Vec<Literal>)
    ensures
        literal_views(r@) == literal_views(ls@),
{
    let mut r: Vec<Literal> = Vec::new();
    let mut i: usize = 0;
    while i < ls.len()
        invariant
            i <= ls.len(),
            r.len() == i,
            forall|j: int| 0 <= j < i ==> r@[j]@ == ls@[j]@,
        decreases ls.len() - i,
    {
        r.push(ls[i].duplicate());
        i = i + 1;
    }
    assert(literal_views(r@) =~= literal_views(ls@));
    r
}

/// Whether a value with the content of `v` occurs in `values`.
fn contains_identical(values: &Vec<Datum>, v: &Datum) -> (r: bool)
    ensures
        r == datum_views(values@).contains(v@),
{
    let mut i: usize = 0;
    while i < values.len()
        invariant
            i <= values.len(),
            forall|j: int| 0 <= j < i ==> values@[j]@ != v@,
        decreases values.len() - i,
    {
        if values[i].identical(v) {
            assert(datum_views(values@)[i as int] == v@);
            return true;
        }
        i = i + 1;
    }
    assert(!datum_views(values@).contains(v@)) by {
        if datum_views(values@).contains(v@) {
            let k = choose|k: int| 0 <= k < datum_views(values@).len() && datum_views(values@)[k] == v@;
            assert(values@[k]@ == v@);
        }
    }
    false
}

/// Adding `v` to a sequence of distinct values that holds what `t` holds, unless it is
/// already there, gives one that holds what `t` with `v` at its end holds.
proof fn lemma_add_distinct(before: Seq<DatumView>, after: Seq<DatumView>, t: Seq<DatumView>, v: DatumView)
    requires
        forall|d: DatumView| before.contains(d) <==> t.contains(d),
        (before.contains(v) && after == before) || (!before.contains(v) && after == before.push(v)),
    ensures
        forall|d: DatumView| after.contains(d) <==> t.push(v).contains(d),
{
    assert forall|d: DatumView| after.contains(d) <==> t.push(v).contains(d) by {
        if t.push(v).contains(d) && d != v {
            let k = choose|k: int| 0 <= k < t.push(v).len() && t.push(v)[k] == d;
            assert(t[k] == d);
        }
        if t.contains(d) {
            let k = choose|k: int| 0 <= k < t.len() && t[k] == d;
            assert(t.push(v)[k] == d);
        }
        if after.contains(d) && d != v {
            let k = choose|k: int| 0 <= k < after.len() && after[k] == d;
            assert(before[k] == d);
        }
        if before.contains(d) {
            let k = choose|k: int| 0 <= k < before.len() && before[k] == d;
            assert(after[k] == d);
        }
        assert(t.push(v)[t.len() as int] == v);
        if !before.contains(v) {
            assert(after[before.len() as int] == v);
        }
    }
}

/// The distinct values of the given literals.
fn distinct_values(ls: &Vec<Literal>) -> (r: Vec<Datum>)
    ensures
        datum_views(r@).no_duplicates(),
        forall|d: DatumView| datum_views(r@).contains(d) <==> literal_views(ls@).contains(d),
{
    let mut r: Vec<Datum> = Vec::new();
    let mut i: usize = 0;
    while i < ls.len()
        invariant
            i <= ls.len(),
            datum_views(r@).no_duplicates(),
            forall|d: DatumView|
                datum_views(r@).contains(d) <==> literal_views(ls@).take(i as int).contains(d),
        decreases ls.len() - i,
    {
        let v = ls[i].value();
        let ghost before = datum_views(r@);
        assert(literal_views(ls@).take(i + 1) =~= literal_views(ls@).take(i as int).push(v@));
        if !contains_identical(&r, v) {
            r.push(v.duplicate());
            assert(datum_views(r@) =~= before.push(v@));
        }
        proof {
            lemma_add_distinct(before, datum_views(r@), literal_views(ls@).take(i as int), v@);
        }
        i = i + 1;
    }
    assert(literal_views(ls@).take(ls.len() as int) =~= literal_views(ls@));
    r
}

impl UnboundPredicate {
    /// A unary predicate.
    pub fn unary(op: Operation, term: Reference) -> (r: UnboundPredicate)
        ensures
            r@ == (UnboundPredicateView::Unary { op, term: term@ }),
    {
        UnboundPredicate::Unary { op, term }
    }

    /// A comparison with a literal.
    pub fn literal(op: Operation, term: Reference, literal: Literal) -> (r: UnboundPredicate)
        ensures
            r@ == (UnboundPredicateView::Literal { op, term: term@, literal: literal@ }),
    {
        UnboundPredicate::Literal { op, term, literal }
    }

    /// A set predicate.
    pub fn set(op: Operation, term: Reference, literals: Vec<Literal>) -> (r: UnboundPredicate)
        ensures
            r@ == (UnboundPredicateView::InSet { op, term: term@, literals: literal_views(literals@) }),
    {
        UnboundPredicate::InSet { op, term, literals }
    }

    /// The referenced column.
    pub fn term(&self) -> (r: &Reference)
        ensures
            r@ == self@.term(),
    {
        match self {
            UnboundPredicate::Unary { term, .. } => term,
            UnboundPredicate::Literal { term, .. } => term,
            UnboundPredicate::InSet { term, .. } => term,
        }
    }

    /// The operation.
    pub fn op(&self) -> (r: Operation)
        ensures
            r == self@.op(),
    {
        match self {
            UnboundPredicate::Unary { op, .. } => *op,
            UnboundPredicate::Literal { op, .. } => *op,
            UnboundPredicate::InSet { op, .. } => *op,
        }
    }

    /// A copy of this predicate.
    pub fn duplicate(&self) -> (r: UnboundPredicate)
        ensures
            r@ == self@,
    {
        match self {
            UnboundPredicate::Unary { op, term } => UnboundPredicate::Unary {
                op: *op,
                term: term.duplicate(),
            },
            UnboundPredicate::Literal { op, term, literal } => UnboundPredicate::Literal {
                op: *op,
                term: term.duplicate(),
                literal: literal.duplicate(),
            },
            UnboundPredicate::InSet { op, term, literals } => UnboundPredicate::InSet {
                op: *op,
                term: term.duplicate(),
                literals: copy_literals(literals),
            },
        }
    }

    /// The predicate with the negated operation, where the operation has a negation.
    pub fn negate(&self) -> (r: Option<UnboundPredicate>)
        ensures
            match negated_op(self@.op()) {
                Some(n) => r matches Some(p) && p@ == self@.with_op(n),
                None => r is None,
            },
    {
        let n = match self.op().negate() {
            Some(n) => n,
            None => return None,
        };
        let r = match self {
            UnboundPredicate::Unary { term, .. } => UnboundPredicate::Unary {
                op: n,
                term: term.duplicate(),
            },
            UnboundPredicate::Literal { term, literal, .. } => UnboundPredicate::Literal {
                op: n,
                term: term.duplicate(),
                literal: literal.duplicate(),
            },
            UnboundPredicate::InSet { term, literals, .. } => UnboundPredicate::InSet {
                op: n,
                term: term.duplicate(),
                literals: copy_literals(literals),
            },
        };
        Some(r)
    }

    /// This predicate on the field given by `bound_ref`; the literals of a set
    /// predicate become a set of distinct values.
    pub fn bind(&self, bound_ref: BoundReference) -> (r: BoundPredicate)
        ensures
            r@.op() == self@.op(),
            r@.term() == bound_ref@,
            match self@ {
                UnboundPredicateView::Unary { .. } => r is Unary,
                UnboundPredicateView::Literal { literal, .. } => r matches BoundPredicate::Literal(
                    p,
                ) && p.literal@ == literal,
                UnboundPredicateView::InSet { literals, .. } => r matches BoundPredicate::InSet(p)
                    && p.distinct() && p.contents() == literals.to_set(),
            },
    {
        match self {
            UnboundPredicate::Unary { op, .. } => BoundPredicate::Unary(
                UnaryPredicate { op: *op, term: bound_ref },
            ),
            UnboundPredicate::Literal { op, literal, .. } => BoundPredicate::Literal(
                LiteralPredicate { op: *op, term: bound_ref, literal: literal.duplicate() },
            ),
            UnboundPredicate::InSet { op, literals, .. } => {
                let values = distinct_values(literals);
                let p = SetPredicate { op: *op, term: bound_ref, values };
                assert(p.contents() =~= literal_views(literals@).to_set());
                BoundPredicate::InSet(p)
            },
        }
    }
}

// ---------------------------------------------------------------------------
// What the bound predicates decide
// ---------------------------------------------------------------------------

/// Whether a unary predicate holds of `value`.
pub open spec fn unary_holds(op: Operation, value: DatumView) -> bool {
    match op {
        Operation::IsNull => value is Null,
        Operation::NotNull => !(value is Null),
        Operation::IsNaN => datum_is_nan(value),
        Operation::NotNaN => !datum_is_nan(value),
        _ => false,
    }
}

/// Whether a comparison of `value` with the literal `lit` holds: never for a null
/// value or for values that do not compare (NaN, unrelated types).
pub open spec fn literal_holds(op: Operation, lit: DatumView, value: DatumView) -> bool {
    if value is Null {
        false
    } else {
        match datum_order_code(lit, value) {
            None => false,
            Some(c) => match op {
                Operation::Lt => c == 1,
                Operation::LtEq => c != -1,
                Operation::Gt => c == -1,
                Operation::GtEq => c != 1,
                Operation::Eq => c == 0,
                Operation::NotEq => c != 0,
                Operation::StartsWith => match (value, lit) {
                    (DatumView::String(v), DatumView::String(l)) => has_prefix(v, l),
                    _ => false,
                },
                Operation::NotStartsWith => match (value, lit) {
                    (DatumView::String(v), DatumView::String(l)) => !has_prefix(v, l),
                    _ => true,
                },
                _ => false,
            },
        }
    }
}

/// On `int` values the comparisons are those of the integers: `value < lit`,
/// `value <= lit`, `value > lit`, `value >= lit`, `value == lit` and `value != lit`.
pub proof fn lemma_int_comparisons(lit: i32, value: i32)
    ensures
        literal_holds(Operation::Lt, DatumView::Int(lit), DatumView::Int(value)) <==> value < lit,
        literal_holds(Operation::LtEq, DatumView::Int(lit), DatumView::Int(value)) <==> value <= lit,
        literal_holds(Operation::Gt, DatumView::Int(lit), DatumView::Int(value)) <==> value > lit,
        literal_holds(Operation::GtEq, DatumView::Int(lit), DatumView::Int(value)) <==> value >= lit,
        literal_holds(Operation::Eq, DatumView::Int(lit), DatumView::Int(value)) <==> value == lit,
        literal_holds(Operation::NotEq, DatumView::Int(lit), DatumView::Int(value)) <==> value != lit,
{
}

/// On `long` values, and on an `int` compared with a `long`, the comparisons are
/// those of the integers.
pub proof fn lemma_long_comparisons(lit: i64, value: i64, small: i32)
    ensures
        literal_holds(Operation::Lt, DatumView::Long(lit), DatumView::Long(value)) <==> value < lit,
        literal_holds(Operation::LtEq, DatumView::Long(lit), DatumView::Long(value)) <==> value <= lit,
        literal_holds(Operation::Gt, DatumView::Long(lit), DatumView::Long(value)) <==> value > lit,
        literal_holds(Operation::GtEq, DatumView::Long(lit), DatumView::Long(value)) <==> value >= lit,
        literal_holds(Operation::Eq, DatumView::Long(lit), DatumView::Long(value)) <==> value == lit,
        literal_holds(Operation::NotEq, DatumView::Long(lit), DatumView::Long(value)) <==> value != lit,
        literal_holds(Operation::LtEq, DatumView::Long(lit), DatumView::Int(small)) <==> small <= lit,
        literal_holds(Operation::GtEq, DatumView::Int(small), DatumView::Long(value)) <==> value >= small,
{
}

/// For a value that compares with the literal, the comparisons fit together: exactly
/// one of `<`, `==` and `>` holds, `<=` is `<` or `==`, `>=` is `>` or `==`, and `!=`
/// is not `==`.
pub proof fn lemma_comparisons_relate(lit: DatumView, value: DatumView)
    requires
        !(value is Null),
        datum_order_code(lit, value) is Some,
    ensures
        ({
            let lt = literal_holds(Operation::Lt, lit, value);
            let eq = literal_holds(Operation::Eq, lit, value);
            let gt = literal_holds(Operation::Gt, lit, value);
            &&& literal_holds(Operation::LtEq, lit, value) <==> (lt || eq)
            &&& literal_holds(Operation::GtEq, lit, value) <==> (gt || eq)
            &&& literal_holds(Operation::NotEq, lit, value) <==> !eq
            &&& (lt || eq || gt)
            &&& !(lt && eq) && !(lt && gt) && !(eq && gt)
        }),
{
    lemma_order_code_range(lit, value);
}

/// Whether a set of values holds `value`: a stored value of the same variant and
/// content, NaN never being found.
pub open spec fn set_holds_value(values: Set<DatumView>, value: DatumView) -> bool {
    values.contains(value) && !datum_is_nan(value)
}

/// Whether a set predicate holds of `value`.
pub open spec fn set_holds(op: Operation, values: Set<DatumView>, value: DatumView) -> bool {
    if value is Null {
        false
    } else {
        match op {
            Operation::In => set_holds_value(values, value),
            Operation::NotIn => !set_holds_value(values, value),
            _ => false,
        }
    }
}

/// A unary predicate (IS NULL, NOT NULL, IS NAN, NOT NAN).
#[derive(Debug)]
pub struct UnaryPredicate {
    /// Operation
    pub op: Operation,
    /// Column reference
    pub term: BoundReference,
}

impl UnaryPredicate {
    /// A unary predicate on the given field.
    pub fn new(op: Operation, term: BoundReference) -> (r: UnaryPredicate)
        ensures
            r.op == op,
            r.term@ == term@,
    {
        UnaryPredicate { op, term }
    }

    /// Whether this predicate holds of a row.
    pub fn test<A: Accessor>(&self, accessor: &A) -> (r: bool)
        ensures
            r == unary_holds(self.op, field_at(accessor.row(), self.term@.pos as int)),
    {
        let value = self.term.eval(accessor);
        match self.op {
            Operation::IsNull => value.is_null(),
            Operation::NotNull => !value.is_null(),
            Operation::IsNaN => value.is_nan(),
            Operation::NotNaN => !value.is_nan(),
            _ => false,
        }
    }
}

/// A comparison of a field with a single value.
#[derive(Debug)]
pub struct LiteralPredicate {
    /// Operation
    pub op: Operation,
    /// Column reference
    pub term: BoundReference,
    /// Literal value to compare against
    pub literal: Literal,
}

impl LiteralPredicate {
    /// A comparison of the given field with `literal`.
    pub fn new(op: Operation, term: BoundReference, literal: Literal) -> (r: LiteralPredicate)
        ensures
            r.op == op,
            r.term@ == term@,
            r.literal@ == literal@,
    {
        LiteralPredicate { op, term, literal }
    }

    /// Whether this predicate holds of a row.
    pub fn test<A: Accessor>(&self, accessor: &A) -> (r: bool)
        ensures
            r == literal_holds(
                self.op,
                self.literal@,
                field_at(accessor.row(), self.term@.pos as int),
            ),
    {
        let value = self.term.eval(accessor);
        if value.is_null() {
            return false;
        }
        let c = match compare_code(self.literal.value(), &value) {
            Some(c) => c,
            None => return false,
        };
        match self.op {
            Operation::Lt => c == 1,
            Operation::LtEq => c != -1,
            Operation::Gt => c == -1,
            Operation::GtEq => c != 1,
            Operation::Eq => c == 0,
            Operation::NotEq => c != 0,
            Operation::StartsWith => match (&value, self.literal.value()) {
                (Datum::String(v), Datum::String(l)) => starts_with(v.as_str(), l.as_str()),
                _ => false,
            },
            Operation::NotStartsWith => match (&value, self.literal.value()) {
                (Datum::String(v), Datum::String(l)) => !starts_with(v.as_str(), l.as_str()),
                _ => true,
            },
            _ => false,
        }
    }

    /// The literal value.
    pub fn literal(&self) -> (r: &Literal)
        ensures
            r@ == self.literal@,
    {
        &self.literal
    }
}

/// A set predicate (IN, NOT IN).
#[derive(Debug)]
pub struct SetPredicate {
    /// Operation (IN or NOT IN)
    pub op: Operation,
    /// Column reference
    pub term: BoundReference,
    /// The values of the set
    pub values: Vec<Datum>,
}

impl SetPredicate {
    /// The values of the set.
    pub open spec fn contents(&self) -> Set<DatumView> {
        datum_views(self.values@).to_set()
    }

    /// Whether no value is stored twice.
    pub open spec fn distinct(&self) -> bool {
        datum_views(self.values@).no_duplicates()
    }

    /// A set predicate on the given field; values given more than once are kept once.
    pub fn new(op: Operation, term: BoundReference, values: Vec<Datum>) -> (r: SetPredicate)
        ensures
            r.op == op,
            r.term@ == term@,
            r.distinct(),
            r.contents() == datum_views(values@).to_set(),
    {
        let mut kept: Vec<Datum> = Vec::new();
        let mut rest = values;
        let ghost all = datum_views(rest@);
        let mut i: usize = 0;
        while i < rest.len()
            invariant
                i <= rest.len(),
                all == datum_views(rest@),
                datum_views(kept@).no_duplicates(),
                forall|d: DatumView| datum_views(kept@).contains(d) <==> all.take(i as int).contains(d),
            decreases rest.len() - i,
        {
            let ghost before = datum_views(kept@);
            let ghost v = rest@[i as int]@;
            assert(all.take(i + 1) =~= all.take(i as int).push(v));
            if !contains_identical(&kept, &rest[i]) {
                kept.push(rest[i].duplicate());
                assert(datum_views(kept@) =~= before.push(v));
            }
            proof {
                lemma_add_distinct(before, datum_views(kept@), all.take(i as int), v);
            }
            i = i + 1;
        }
        assert(all.take(rest.len() as int) =~= all);
        let r = SetPredicate { op, term, values: kept };
        assert(r.contents() =~= all.to_set());
        r
    }

    /// Whether this predicate holds of a row.
    pub fn test<A: Accessor>(&self, accessor: &A) -> (r: bool)
        ensures
            r == set_holds(self.op, self.contents(), field_at(accessor.row(), self.term@.pos as int)),
    {
        let value = self.term.eval(accessor);
        if value.is_null() {
            return false;
        }
        let contains = contains_identical(&self.values, &value) && !value.is_nan();
        match self.op {
            Operation::In => contains,
            Operation::NotIn => !contains,
            _ => false,
        }
    }

    /// The values of the set.
    pub fn values(&self) -> (r: &Vec<Datum>)
        ensures
            datum_views(r@) == datum_views(self.values@),
    {
        &self.values
    }

    /// A copy of this predicate.
    pub fn duplicate(&self) -> (r: SetPredicate)
        ensures
            r.op == self.op,
            r.term@ == self.term@,
            datum_views(r.values@) == datum_views(self.values@),
    {
        let mut values: Vec<Datum> = Vec::new();
        let mut i: usize = 0;
        while i < self.values.len()
            invariant
                i <= self.values.len(),
                values.len() == i,
                forall|j: int| 0 <= j < i ==> values@[j]@ == self.values@[j]@,
            decreases self.values.len() - i,
        {
            values.push(self.values[i].duplicate());
            i = i + 1;
        }
        assert(datum_views(values@) =~= datum_views(self.values@));
        SetPredicate { op: self.op, term: self.term.duplicate(), values }
    }
}

/// What a bound predicate holds.
pub enum BoundPredicateView {
    Unary { op: Operation, term: BoundReferenceView },
    Literal { op: Operation, term: BoundReferenceView, literal: DatumView },
    InSet { op: Operation, term: BoundReferenceView, values: Seq<DatumView> },
}

impl BoundPredicateView {
    /// The operation of the predicate.
    pub open spec fn op(self) -> Operation {
        match self {
            BoundPredicateView::Unary { op, .. } => op,
            BoundPredicateView::Literal { op, .. } => op,
            BoundPredicateView::InSet { op, .. } => op,
        }
    }

    /// The field the predicate is on.
    pub open spec fn term(self) -> BoundReferenceView {
        match self {
            BoundPredicateView::Unary { term, .. } => term,
            BoundPredicateView::Literal { term, .. } => term,
            BoundPredicateView::InSet { term, .. } => term,
        }
    }

    /// The same predicate with another operation.
    pub open spec fn with_op(self, op: Operation) -> BoundPredicateView {
        match self {
            BoundPredicateView::Unary { term, .. } => BoundPredicateView::Unary { op, term },
            BoundPredicateView::Literal { term, literal, .. } => BoundPredicateView::Literal {
                op,
                term,
                literal,
            },
            BoundPredicateView::InSet { term, values, .. } => BoundPredicateView::InSet {
                op,
                term,
                values,
            },
        }
    }

    /// Whether the predicate holds of a row.
    pub open spec fn holds(self, row: Seq<DatumView>) -> bool {
        match self {
            BoundPredicateView::Unary { op, term } => unary_holds(op, field_at(row, term.pos as int)),
            BoundPredicateView::Literal { op, term, literal } => literal_holds(
                op,
                literal,
                field_at(row, term.pos as int),
            ),
            BoundPredicateView::InSet { op, term, values } => set_holds(
                op,
                values.to_set(),
                field_at(row, term.pos as int),
            ),
        }
    }
}

/// A predicate on a field given by position.
#[derive(Debug)]
pub enum BoundPredicate {
    /// Unary predicate
    Unary(UnaryPredicate),
    /// Literal predicate
    Literal(LiteralPredicate),
    /// Set predicate
    InSet(SetPredicate),
}

impl View for BoundPredicate {
    type V = BoundPredicateView;

    open spec fn view(&self) -> BoundPredicateView {
        match self {
            BoundPredicate::Unary(p) => BoundPredicateView::Unary { op: p.op, term: p.term@ },
            BoundPredicate::Literal(p) => BoundPredicateView::Literal {
                op: p.op,
                term: p.term@,
                literal: p.literal@,
            },
            BoundPredicate::InSet(p) => BoundPredicateView::InSet {
                op: p.op,
                term: p.term@,
                values: datum_views(p.values@),
            },
        }
    }
}

impl BoundPredicate {
    /// Whether this predicate holds of a row.
    pub fn test<A: Accessor>(&self, accessor: &A) -> (r: bool)
        ensures
            r == self@.holds(accessor.row()),
    {
        match self {
            BoundPredicate::Unary(p) => p.test(accessor),
            BoundPredicate::Literal(p) => p.test(accessor),
            BoundPredicate::InSet(p) => p.test(accessor),
        }
    }

    /// The field the predicate is on.
    pub fn term(&self) -> (r: &BoundReference)
        ensures
            r@ == self@.term(),
    {
        match self {
            BoundPredicate::Unary(p) => &p.term,
            BoundPredicate::Literal(p) => &p.term,
            BoundPredicate::InSet(p) => &p.term,
        }
    }

    /// The operation of the predicate.
    pub fn operation(&self) -> (r: Operation)
        ensures
            r == self@.op(),
    {
        match self {
            BoundPredicate::Unary(p) => p.op,
            BoundPredicate::Literal(p) => p.op,
            BoundPredicate::InSet(p) => p.op,
        }
    }

    /// The value of this predicate on a row, as a boolean datum.
    pub fn eval<A: Accessor>(&self, accessor: &A) -> (r: Datum)
        ensures
            r@ == DatumView::Boolean(self@.holds(accessor.row())),
    {
        Datum::Boolean(self.test(accessor))
    }

    /// A copy of this predicate.
    pub fn duplicate(&self) -> (r: BoundPredicate)
        ensures
            r@ == self@,
    {
        match self {
            BoundPredicate::Unary(p) => BoundPredicate::Unary(
                UnaryPredicate { op: p.op, term: p.term.duplicate() },
            ),
            BoundPredicate::Literal(p) => BoundPredicate::Literal(
                LiteralPredicate { op: p.op, term: p.term.duplicate(), literal: p.literal.duplicate() },
            ),
            BoundPredicate::InSet(p) => BoundPredicate::InSet(p.duplicate()),
        }
    }

    /// The predicate with the negated operation, where the operation has a negation.
    pub fn negate(&self) -> (r: Option<BoundPredicate>)
        ensures
            match negated_op(self@.op()) {
                Some(n) => r matches Some(p) && p@ == self@.with_op(n),
                None => r is None,
            },
    {
        let n = match self.operation().negate() {
            Some(n) => n,
            None => return None,
        };
        let r = match self {
            BoundPredicate::Unary(p) => BoundPredicate::Unary(
                UnaryPredicate { op: n, term: p.term.duplicate() },
            ),
            BoundPredicate::Literal(p) => BoundPredicate::Literal(
                LiteralPredicate { op: n, term: p.term.duplicate(), literal: p.literal.duplicate() },
            ),
            BoundPredicate::InSet(p) => {
                let c = p.duplicate();
                BoundPredicate::InSet(SetPredicate { op: n, term: c.term, values: c.values })
            },
        };
        Some(r)
    }
}

/// An expression that is a predicate, with the operation it tests by.
pub trait Predicate: super::logical::Expression {
    /// The operation.
    fn operation(&self) -> (r: super::operation::Operation)
        ensures
            r == super::logical::expr_op(self.tree()),
    ;
}

impl Predicate for UnboundPredicate {
    fn operation(&self) -> (r: super::operation::Operation) {
        super::logical::Expression::op(self)
    }
}

impl Predicate for BoundPredicate {
    fn operation(&self) -> (r: super::operation::Operation) {
        super::logical::Expression::op(self)
    }
}

} // verus!
