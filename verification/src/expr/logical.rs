//! Expression trees: the constants, the logical connectives (And, Or, Not) and
//! predicates, with what each operation and negation gives.
use vstd::prelude::*;
use super::operation::{Operation, negated_op, lemma_negate_involution};
use super::predicate::{UnboundPredicate, UnboundPredicateView, BoundPredicate, BoundPredicateView};

verus! {

/// What an expression tree holds.
pub enum ExprView {
    True,
    False,
    And(Box<ExprView>, Box<ExprView>),
    Or(Box<ExprView>, Box<ExprView>),
    Not(Box<ExprView>),
    Unbound(UnboundPredicateView),
    Bound(BoundPredicateView),
}

/// The operation at the root of an expression.
pub open spec fn expr_op(e: ExprView) -> Operation {
    match e {
        ExprView::True => Operation::True,
        ExprView::False => Operation::False,
        ExprView::And(..) => Operation::And,
        ExprView::Or(..) => Operation::Or,
        ExprView::Not(..) => Operation::Not,
        ExprView::Unbound(p) => p.op(),
        ExprView::Bound(p) => p.op(),
    }
}

/// The negation of an expression, where one can be formed: the constants swap, And
/// and Or follow De Morgan's laws, Not drops, and a predicate takes the negated
/// operation.
pub open spec fn expr_negation(e: ExprView) -> Option<ExprView>
    decreases e,
{
    match e {
        ExprView::True => Some(ExprView::False),
        ExprView::False => Some(ExprView::True),
        ExprView::And(l, r) => match (expr_negation(*l), expr_negation(*r)) {
            (Some(a), Some(b)) => Some(ExprView::Or(Box::new(a), Box::new(b))),
            _ => None,
        },
        ExprView::Or(l, r) => match (expr_negation(*l), expr_negation(*r)) {
            (Some(a), Some(b)) => Some(ExprView::And(Box::new(a), Box::new(b))),
            _ => None,
        },
        ExprView::Not(c) => Some(*c),
        ExprView::Unbound(p) => match negated_op(p.op()) {
            Some(n) => Some(ExprView::Unbound(p.with_op(n))),
            None => None,
        },
        ExprView::Bound(p) => match negated_op(p.op()) {
            Some(n) => Some(ExprView::Bound(p.with_op(n))),
            None => None,
        },
    }
}

/// Whether an expression tree has no Not node.
pub open spec fn not_free(e: ExprView) -> bool
    decreases e,
{
    match e {
        ExprView::And(l, r) => not_free(*l) && not_free(*r),
        ExprView::Or(l, r) => not_free(*l) && not_free(*r),
        ExprView::Not(_) => false,
        _ => true,
    }
}

/// Negating an expression with no Not node twice gives it back. (The negation of a
/// Not node drops it, so with Not nodes the second negation need not restore them.)
pub proof fn lemma_negation_involution(e: ExprView)
    requires
        not_free(e),
    ensures
        expr_negation(e) matches Some(n) ==> expr_negation(n) == Some(e),
    decreases e,
{
    match e {
        ExprView::And(l, r) => {
            lemma_negation_involution(*l);
            lemma_negation_involution(*r);
        },
        ExprView::Or(l, r) => {
            lemma_negation_involution(*l);
            lemma_negation_involution(*r);
        },
        ExprView::Unbound(p) => {
            lemma_negate_involution(p.op());
            if let Some(n) = negated_op(p.op()) {
                assert(p.with_op(n).with_op(p.op()) == p);
            }
        },
        ExprView::Bound(p) => {
            lemma_negate_involution(p.op());
            if let Some(n) = negated_op(p.op()) {
                assert(p.with_op(n).with_op(p.op()) == p);
            }
        },
        _ => {},
    }
}

/// The base of all expressions.
pub trait Expression {
    /// The tree this expression stands for.
    spec fn tree(&self) -> ExprView;

    /// The operation at the root of this expression.
    fn op(&self) -> (r: Operation)
        ensures
            r == expr_op(self.tree()),
    ;

    /// The negation of this expression, where one can be formed.
    fn negate(&self) -> (r: Option<Expr>)
        ensures
            match expr_negation(self.tree()) {
                Some(n) => r matches Some(e) && e@ == n,
                None => r is None,
            },
    ;

    /// Whether this expression is known to be equivalent to `other`; only the
    /// constants recognise their like.
    fn is_equivalent_to(&self, other: &Expr) -> (r: bool)
        ensures
            r == (match self.tree() {
                ExprView::True => expr_op(other@) == Operation::True,
                ExprView::False => expr_op(other@) == Operation::False,
                _ => false,
            }),
    ;
}

/// An expression that always evaluates to true.
#[derive(Debug, Clone, Copy)]
pub struct AlwaysTrue;

/// An expression that always evaluates to false.
#[derive(Debug, Clone, Copy)]
pub struct AlwaysFalse;

/// Logical AND.
#[derive(Debug)]
pub struct And {
    left: Box<Expr>,
    right: Box<Expr>,
}

/// Logical OR.
#[derive(Debug)]
pub struct Or {
    left: Box<Expr>,
    right: Box<Expr>,
}

/// Logical NOT.
#[derive(Debug)]
pub struct Not {
    child: Box<Expr>,
}

/// An expression tree.
#[derive(Debug)]
pub enum Expr {
    True(AlwaysTrue),
    False(AlwaysFalse),
    And(And),
    Or(Or),
    Not(Not),
    Unbound(UnboundPredicate),
    Bound(BoundPredicate),
}

/// The tree an expression stands for.
pub closed spec fn expr_view(e: &Expr) -> ExprView
    decreases e,
{
    match e {
        Expr::True(_) => ExprView::True,
        Expr::False(_) => ExprView::False,
        Expr::And(a) => ExprView::And(Box::new(expr_view(&a.left)), Box::new(expr_view(&a.right))),
        Expr::Or(o) => ExprView::Or(Box::new(expr_view(&o.left)), Box::new(expr_view(&o.right))),
        Expr::Not(n) => ExprView::Not(Box::new(expr_view(&n.child))),
        Expr::Unbound(p) => ExprView::Unbound(p@),
        Expr::Bound(p) => ExprView::Bound(p@),
    }
}

impl View for Expr {
    type V = ExprView;

    open spec fn view(&self) -> ExprView {
        expr_view(self)
    }
}

/// The tree of an expression is that of the value it wraps.
pub broadcast proof fn lemma_expr_view(e: Expr)
    ensures
        #[trigger] e@ == match e {
            Expr::True(t) => t.tree(),
            Expr::False(f) => f.tree(),
            Expr::And(a) => a.tree(),
            Expr::Or(o) => o.tree(),
            Expr::Not(n) => n.tree(),
            Expr::Unbound(p) => p.tree(),
            Expr::Bound(p) => p.tree(),
        },
{
}

/// A copy of an expression.
pub fn copy_expr(e: &Expr) -> (r: Expr)
    ensures
        r@ == e@,
    decreases e,
{
    match e {
        Expr::True(_) => Expr::True(AlwaysTrue),
        Expr::False(_) => Expr::False(AlwaysFalse),
        Expr::And(a) => Expr::And(
            And { left: Box::new(copy_expr(&a.left)), right: Box::new(copy_expr(&a.right)) },
        ),
        Expr::Or(o) => Expr::Or(
            Or { left: Box::new(copy_expr(&o.left)), right: Box::new(copy_expr(&o.right)) },
        ),
        Expr::Not(n) => Expr::Not(Not { child: Box::new(copy_expr(&n.child)) }),
        Expr::Unbound(p) => Expr::Unbound(p.duplicate()),
        Expr::Bound(p) => Expr::Bound(p.duplicate()),
    }
}

/// The negation of an expression, where one can be formed.
pub fn negate_expr(e: &Expr) -> (r: Option<Expr>)
    ensures
        match expr_negation(e@) {
            Some(n) => r matches Some(x) && x@ == n,
            None => r is None,
        },
    decreases e,
{
    match e {
        Expr::True(_) => Some(Expr::False(AlwaysFalse)),
        Expr::False(_) => Some(Expr::True(AlwaysTrue)),
        Expr::And(a) => {
            let l = match negate_expr(&a.left) {
                Some(l) => l,
                None => return None,
            };
            let r = match negate_expr(&a.right) {
                Some(r) => r,
                None => return None,
            };
            Some(Expr::Or(Or { left: Box::new(l), right: Box::new(r) }))
        },
        Expr::Or(o) => {
            let l = match negate_expr(&o.left) {
                Some(l) => l,
                None => return None,
            };
            let r = match negate_expr(&o.right) {
                Some(r) => r,
                None => return None,
            };
            Some(Expr::And(And { left: Box::new(l), right: Box::new(r) }))
        },
        Expr::Not(n) => Some(copy_expr(&n.child)),
        Expr::Unbound(p) => match p.negate() {
            Some(q) => Some(Expr::Unbound(q)),
            None => None,
        },
        Expr::Bound(p) => match p.negate() {
            Some(q) => Some(Expr::Bound(q)),
            None => None,
        },
    }
}

/// The operation at the root of an expression.
pub fn op_of(e: &Expr) -> (r: Operation)
    ensures
        r == expr_op(e@),
{
    match e {
        Expr::True(_) => Operation::True,
        Expr::False(_) => Operation::False,
        Expr::And(_) => Operation::And,
        Expr::Or(_) => Operation::Or,
        Expr::Not(_) => Operation::Not,
        Expr::Unbound(p) => p.op(),
        Expr::Bound(p) => p.operation(),
    }
}

impl Expression for Expr {
    open spec fn tree(&self) -> ExprView {
        self@
    }

    fn op(&self) -> (r: Operation) {
        op_of(self)
    }

    fn negate(&self) -> (r: Option<Expr>) {
        negate_expr(self)
    }

    fn is_equivalent_to(&self, other: &Expr) -> (r: bool) {
        match self {
            Expr::True(_) => op_of(other) == Operation::True,
            Expr::False(_) => op_of(other) == Operation::False,
            _ => false,
        }
    }
}

impl Expression for AlwaysTrue {
    open spec fn tree(&self) -> ExprView {
        ExprView::True
    }

    fn op(&self) -> (r: Operation) {
        Operation::True
    }

    fn negate(&self) -> (r: Option<Expr>) {
        Some(Expr::False(AlwaysFalse))
    }

    fn is_equivalent_to(&self, other: &Expr) -> (r: bool) {
        op_of(other) == Operation::True
    }
}

impl Expression for AlwaysFalse {
    open spec fn tree(&self) -> ExprView {
        ExprView::False
    }

    fn op(&self) -> (r: Operation) {
        Operation::False
    }

    fn negate(&self) -> (r: Option<Expr>) {
        Some(Expr::True(AlwaysTrue))
    }

    fn is_equivalent_to(&self, other: &Expr) -> (r: bool) {
        op_of(other) == Operation::False
    }
}

impl And {
    /// The conjunction of `left` and `right`.
    pub fn new(left: Expr, right: Expr) -> (r: And)
        ensures
            r.tree() == ExprView::And(Box::new(left@), Box::new(right@)),
    {
        And { left: Box::new(left), right: Box::new(right) }
    }

    /// The left operand.
    pub fn left(&self) -> (r: &Expr)
        ensures
            self.tree() matches ExprView::And(l, _) && r@ == *l,
    {
        &self.left
    }

    /// The right operand.
    pub fn right(&self) -> (r: &Expr)
        ensures
            self.tree() matches ExprView::And(_, rt) && r@ == *rt,
    {
        &self.right
    }
}

impl Expression for And {
    closed spec fn tree(&self) -> ExprView {
        ExprView::And(Box::new(self.left@), Box::new(self.right@))
    }

    fn op(&self) -> (r: Operation) {
        Operation::And
    }

    fn negate(&self) -> (r: Option<Expr>) {
        let l = match negate_expr(&self.left) {
            Some(l) => l,
            None => return None,
        };
        let r = match negate_expr(&self.right) {
            Some(r) => r,
            None => return None,
        };
        Some(Expr::Or(Or { left: Box::new(l), right: Box::new(r) }))
    }

    fn is_equivalent_to(&self, other: &Expr) -> (r: bool) {
        false
    }
}

impl Or {
    /// The disjunction of `left` and `right`.
    pub fn new(left: Expr, right: Expr) -> (r: Or)
        ensures
            r.tree() == ExprView::Or(Box::new(left@), Box::new(right@)),
    {
        Or { left: Box::new(left), right: Box::new(right) }
    }

    /// The left operand.
    pub fn left(&self) -> (r: &Expr)
        ensures
            self.tree() matches ExprView::Or(l, _) && r@ == *l,
    {
        &self.left
    }

    /// The right operand.
    pub fn right(&self) -> (r: &Expr)
        ensures
            self.tree() matches ExprView::Or(_, rt) && r@ == *rt,
    {
        &self.right
    }
}

impl Expression for Or {
    closed spec fn tree(&self) -> ExprView {
        ExprView::Or(Box::new(self.left@), Box::new(self.right@))
    }

    fn op(&self) -> (r: Operation) {
        Operation::Or
    }

    fn negate(&self) -> (r: Option<Expr>) {
        let l = match negate_expr(&self.left) {
            Some(l) => l,
            None => return None,
        };
        let r = match negate_expr(&self.right) {
            Some(r) => r,
            None => return None,
        };
        Some(Expr::And(And { left: Box::new(l), right: Box::new(r) }))
    }

    fn is_equivalent_to(&self, other: &Expr) -> (r: bool) {
        false
    }
}

impl Not {
    /// The negation of `child`.
    pub fn new(child: Expr) -> (r: Not)
        ensures
            r.tree() == ExprView::Not(Box::new(child@)),
    {
        Not { child: Box::new(child) }
    }

    /// The operand.
    pub fn child(&self) -> (r: &Expr)
        ensures
            self.tree() matches ExprView::Not(c) && r@ == *c,
    {
        &self.child
    }
}

impl Expression for Not {
    closed spec fn tree(&self) -> ExprView {
        ExprView::Not(Box::new(self.child@))
    }

    fn op(&self) -> (r: Operation) {
        Operation::Not
    }

    fn negate(&self) -> (r: Option<Expr>) {
        Some(copy_expr(&self.child))
    }

    fn is_equivalent_to(&self, other: &Expr) -> (r: bool) {
        false
    }
}

impl Expression for UnboundPredicate {
    open spec fn tree(&self) -> ExprView {
        ExprView::Unbound(self@)
    }

    fn op(&self) -> (r: Operation) {
        UnboundPredicate::op(self)
    }

    fn negate(&self) -> (r: Option<Expr>) {
        match UnboundPredicate::negate(self) {
            Some(p) => Some(Expr::Unbound(p)),
            None => None,
        }
    }

    fn is_equivalent_to(&self, other: &Expr) -> (r: bool) {
        false
    }
}

impl Expression for BoundPredicate {
    open spec fn tree(&self) -> ExprView {
        ExprView::Bound(self@)
    }

    fn op(&self) -> (r: Operation) {
        self.operation()
    }

    fn negate(&self) -> (r: Option<Expr>) {
        match BoundPredicate::negate(self) {
            Some(p) => Some(Expr::Bound(p)),
            None => None,
        }
    }

    fn is_equivalent_to(&self, other: &Expr) -> (r: bool) {
        false
    }
}

impl AlwaysTrue {
    /// The display form, `true`.
    pub fn to_display_string(&self) -> (r: String)
        ensures
            r@ == "true"@,
    {
        crate::text::owned("true")
    }
}

impl AlwaysFalse {
    /// The display form, `false`.
    pub fn to_display_string(&self) -> (r: String)
        ensures
            r@ == "false"@,
    {
        crate::text::owned("false")
    }
}

} // verus!
