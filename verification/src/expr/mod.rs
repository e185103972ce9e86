//! Expression system: operations, typed values, references, predicates and
//! logical combinations, their evaluation and binding to a schema.
pub mod operation;
pub mod datum;
pub mod floats;
pub mod literal;
pub mod accessor;
pub mod reference;
pub mod predicate;
pub mod logical;
pub mod evaluator;
pub mod binder;

use vstd::prelude::*;
use operation::Operation;
use literal::Literal;
use reference::Reference;
use predicate::{UnboundPredicate, UnboundPredicateView, literal_views};
use logical::{Expr, ExprView, Expression, AlwaysTrue, AlwaysFalse, And, Or, Not, expr_op, expr_negation, op_of, negate_expr, lemma_expr_view};

verus! {

broadcast use lemma_expr_view;

/// What `Expressions::and` builds: false if either side is false, the other side if
/// one side is true, their conjunction otherwise.
pub open spec fn and_tree(l: ExprView, r: ExprView) -> ExprView {
    if expr_op(l) == Operation::False || expr_op(r) == Operation::False {
        ExprView::False
    } else if expr_op(l) == Operation::True {
        r
    } else if expr_op(r) == Operation::True {
        l
    } else {
        ExprView::And(Box::new(l), Box::new(r))
    }
}

/// What `Expressions::or` builds: true if either side is true, the other side if one
/// side is false, their disjunction otherwise.
pub open spec fn or_tree(l: ExprView, r: ExprView) -> ExprView {
    if expr_op(l) == Operation::True || expr_op(r) == Operation::True {
        ExprView::True
    } else if expr_op(l) == Operation::False {
        r
    } else if expr_op(r) == Operation::False {
        l
    } else {
        ExprView::Or(Box::new(l), Box::new(r))
    }
}

/// What `Expressions::not` builds: the opposite constant, the negation where one can
/// be formed, and otherwise a Not node.
pub open spec fn not_tree(c: ExprView) -> ExprView {
    if expr_op(c) == Operation::True {
        ExprView::False
    } else if expr_op(c) == Operation::False {
        ExprView::True
    } else {
        match expr_negation(c) {
            Some(n) => n,
            None => ExprView::Not(Box::new(c)),
        }
    }
}

/// Expression factory methods.
pub struct Expressions;

impl Expressions {
    /// The expression that always holds.
    pub fn always_true() -> (r: Expr)
        ensures
            r@ == ExprView::True,
    {
        Expr::True(AlwaysTrue)
    }

    /// The expression that never holds.
    pub fn always_false() -> (r: Expr)
        ensures
            r@ == ExprView::False,
    {
        Expr::False(AlwaysFalse)
    }

    /// The conjunction of two expressions, simplified where a side is a constant.
    pub fn and(left: Expr, right: Expr) -> (r: Expr)
        ensures
            r@ == and_tree(left@, right@),
    {
        if op_of(&left) == Operation::False || op_of(&right) == Operation::False {
            return Self::always_false();
        }
        if op_of(&left) == Operation::True {
            return right;
        }
        if op_of(&right) == Operation::True {
            return left;
        }
        Expr::And(And::new(left, right))
    }

    /// The disjunction of two expressions, simplified where a side is a constant.
    pub fn or(left: Expr, right: Expr) -> (r: Expr)
        ensures
            r@ == or_tree(left@, right@),
    {
        if op_of(&left) == Operation::True || op_of(&right) == Operation::True {
            return Self::always_true();
        }
        if op_of(&left) == Operation::False {
            return right;
        }
        if op_of(&right) == Operation::False {
            return left;
        }
        Expr::Or(Or::new(left, right))
    }

    /// The negation of an expression, simplified where it can be.
    pub fn not(child: Expr) -> (r: Expr)
        ensures
            r@ == not_tree(child@),
    {
        if op_of(&child) == Operation::True {
            return Self::always_false();
        }
        if op_of(&child) == Operation::False {
            return Self::always_true();
        }
        match negate_expr(&child) {
            Some(n) => n,
            None => Expr::Not(Not::new(child)),
        }
    }

    /// A reference to the named column.
    pub fn col(name: &str) -> (r: Reference)
        ensures
            r@ == name@,
    {
        Reference::new(name)
    }

    /// `name IS NULL`.
    pub fn is_null(name: &str) -> (r: UnboundPredicate)
        ensures
            r@ == (UnboundPredicateView::Unary { op: Operation::IsNull, term: name@ }),
    {
        UnboundPredicate::unary(Operation::IsNull, Reference::new(name))
    }

    /// `name IS NOT NULL`.
    pub fn not_null(name: &str) -> (r: UnboundPredicate)
        ensures
            r@ == (UnboundPredicateView::Unary { op: Operation::NotNull, term: name@ }),
    {
        UnboundPredicate::unary(Operation::NotNull, Reference::new(name))
    }

    /// `name IS NAN`.
    pub fn is_nan(name: &str) -> (r: UnboundPredicate)
        ensures
            r@ == (UnboundPredicateView::Unary { op: Operation::IsNaN, term: name@ }),
    {
        UnboundPredicate::unary(Operation::IsNaN, Reference::new(name))
    }

    /// `name IS NOT NAN`.
    pub fn not_nan(name: &str) -> (r: UnboundPredicate)
        ensures
            r@ == (UnboundPredicateView::Unary { op: Operation::NotNaN, term: name@ }),
    {
        UnboundPredicate::unary(Operation::NotNaN, Reference::new(name))
    }

    /// `name < value`.
    pub fn less_than(name: &str, value: Literal) -> (r: UnboundPredicate)
        ensures
            r@ == (UnboundPredicateView::Literal { op: Operation::Lt, term: name@, literal: value@ }),
    {
        UnboundPredicate::literal(Operation::Lt, Reference::new(name), value)
    }

    /// `name <= value`.
    pub fn less_than_or_equal(name: &str, value: Literal) -> (r: UnboundPredicate)
        ensures
            r@ == (UnboundPredicateView::Literal { op: Operation::LtEq, term: name@, literal: value@ }),
    {
        UnboundPredicate::literal(Operation::LtEq, Reference::new(name), value)
    }

    /// `name > value`.
    pub fn greater_than(name: &str, value: Literal) -> (r: UnboundPredicate)
        ensures
            r@ == (UnboundPredicateView::Literal { op: Operation::Gt, term: name@, literal: value@ }),
    {
        UnboundPredicate::literal(Operation::Gt, Reference::new(name), value)
    }

    /// `name >= value`.
    pub fn greater_than_or_equal(name: &str, value: Literal) -> (r: UnboundPredicate)
        ensures
            r@ == (UnboundPredicateView::Literal { op: Operation::GtEq, term: name@, literal: value@ }),
    {
        UnboundPredicate::literal(Operation::GtEq, Reference::new(name), value)
    }

    /// `name = value`.
    pub fn equal(name: &str, value: Literal) -> (r: UnboundPredicate)
        ensures
            r@ == (UnboundPredicateView::Literal { op: Operation::Eq, term: name@, literal: value@ }),
    {
        UnboundPredicate::literal(Operation::Eq, Reference::new(name), value)
    }

    /// `name != value`.
    pub fn not_equal(name: &str, value: Literal) -> (r: UnboundPredicate)
        ensures
            r@ == (UnboundPredicateView::Literal { op: Operation::NotEq, term: name@, literal: value@ }),
    {
        UnboundPredicate::literal(Operation::NotEq, Reference::new(name), value)
    }

    /// `name STARTS WITH value`.
    pub fn starts_with(name: &str, value: &str) -> (r: UnboundPredicate)
        ensures
            r@ == (UnboundPredicateView::Literal {
                op: Operation::StartsWith,
                term: name@,
                literal: datum::DatumView::String(value@),
            }),
    {
        UnboundPredicate::literal(Operation::StartsWith, Reference::new(name), Literal::string(value))
    }

    /// `name IN (values)`.
    pub fn in_list(name: &str, values: Vec<Literal>) -> (r: UnboundPredicate)
        ensures
            r@ == (UnboundPredicateView::InSet { op: Operation::In, term: name@, literals: literal_views(values@) }),
    {
        UnboundPredicate::set(Operation::In, Reference::new(name), values)
    }

    /// `name NOT IN (values)`.
    pub fn not_in(name: &str, values: Vec<Literal>) -> (r: UnboundPredicate)
        ensures
            r@ == (UnboundPredicateView::InSet { op: Operation::NotIn, term: name@, literals: literal_views(values@) }),
    {
        UnboundPredicate::set(Operation::NotIn, Reference::new(name), values)
    }
}

} // verus!
