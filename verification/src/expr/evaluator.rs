//! Evaluation of expressions against data rows.
use vstd::prelude::*;
use super::accessor::Accessor;
use super::logical::{Expr, ExprView, AlwaysTrue, AlwaysFalse, Expression, lemma_expr_view};
use super::predicate::{BoundPredicate, BoundPredicateView};
use super::datum::DatumView;

verus! {

/// Whether an expression holds of a row: the constants are themselves, a conjunction
/// holds when both sides do, a disjunction when either does, a negation when its
/// operand does not, and a bound predicate by its own test. An unbound predicate names
/// a column by name only, with no position to read in the row, so it holds of no row.
pub open spec fn expr_holds(e: ExprView, row: Seq<DatumView>) -> bool
    decreases e,
{
    match e {
        ExprView::True => true,
        ExprView::False => false,
        ExprView::And(l, r) => expr_holds(*l, row) && expr_holds(*r, row),
        ExprView::Or(l, r) => expr_holds(*l, row) || expr_holds(*r, row),
        ExprView::Not(c) => !expr_holds(*c, row),
        ExprView::Unbound(_) => false,
        ExprView::Bound(p) => p.holds(row),
    }
}

/// Whether an expression holds of the accessor's row.
fn eval_expr<A: Accessor>(e: &Expr, accessor: &A) -> (r: bool)
    ensures
        r == expr_holds(e@, accessor.row()),
    decreases e@,
{
    proof {
        lemma_expr_view(*e);
    }
    match e {
        Expr::True(_) => true,
        Expr::False(_) => false,
        Expr::And(a) => {
            let l = a.left();
            let rt = a.right();
            let lv = eval_expr(l, accessor);
            let rv = eval_expr(rt, accessor);
            lv && rv
        },
        Expr::Or(o) => {
            let l = o.left();
            let rt = o.right();
            let lv = eval_expr(l, accessor);
            let rv = eval_expr(rt, accessor);
            lv || rv
        },
        Expr::Not(n) => {
            let c = n.child();
            !eval_expr(c, accessor)
        },
        Expr::Unbound(_) => false,
        Expr::Bound(p) => p.test(accessor),
    }
}

/// Evaluates an expression against data rows.
#[derive(Debug)]
pub struct Evaluator {
    expr: Expr,
}

impl Evaluator {
    /// The expression this evaluator judges.
    pub closed spec fn expression(&self) -> ExprView {
        self.expr@
    }

    /// An evaluator for `expr`.
    pub fn new(expr: Expr) -> (r: Evaluator)
        ensures
            r.expression() == expr@,
    {
        Evaluator { expr }
    }

    /// Whether the expression matches the row.
    pub fn eval<A: Accessor>(&self, accessor: &A) -> (r: bool)
        ensures
            r == expr_holds(self.expression(), accessor.row()),
    {
        eval_expr(&self.expr, accessor)
    }
}

/// Evaluation of the typed parts of an expression.
pub struct TypedEvaluator;

impl TypedEvaluator {
    /// Whether a bound predicate holds of a row.
    pub fn eval_predicate<A: Accessor>(pred: &BoundPredicate, accessor: &A) -> (r: bool)
        ensures
            r == pred@.holds(accessor.row()),
    {
        pred.test(accessor)
    }

    /// The constant true.
    pub fn eval_always_true<A: Accessor>(t: &AlwaysTrue, accessor: &A) -> (r: bool)
        ensures
            r,
    {
        true
    }

    /// The constant false.
    pub fn eval_always_false<A: Accessor>(f: &AlwaysFalse, accessor: &A) -> (r: bool)
        ensures
            !r,
    {
        false
    }
}

/// What a bound expression tree holds.
pub enum TreeView {
    True,
    False,
    Predicate(BoundPredicateView),
    And(Box<TreeView>, Box<TreeView>),
    Or(Box<TreeView>, Box<TreeView>),
    Not(Box<TreeView>),
}

/// Whether a tree holds of a row.
pub open spec fn tree_holds(t: TreeView, row: Seq<DatumView>) -> bool
    decreases t,
{
    match t {
        TreeView::True => true,
        TreeView::False => false,
        TreeView::Predicate(p) => p.holds(row),
        TreeView::And(l, r) => tree_holds(*l, row) && tree_holds(*r, row),
        TreeView::Or(l, r) => tree_holds(*l, row) || tree_holds(*r, row),
        TreeView::Not(c) => !tree_holds(*c, row),
    }
}

/// An expression tree over bound predicates.
#[derive(Debug)]
pub enum BoundExpressionTree {
    /// Always true
    True,
    /// Always false
    False,
    /// Bound predicate
    Predicate(BoundPredicate),
    /// AND expression
    And(Box<BoundExpressionTree>, Box<BoundExpressionTree>),
    /// OR expression
    Or(Box<BoundExpressionTree>, Box<BoundExpressionTree>),
    /// NOT expression
    Not(Box<BoundExpressionTree>),
}

/// The view of a bound expression tree.
pub open spec fn tree_view(t: &BoundExpressionTree) -> TreeView
    decreases t,
{
    match t {
        BoundExpressionTree::True => TreeView::True,
        BoundExpressionTree::False => TreeView::False,
        BoundExpressionTree::Predicate(p) => TreeView::Predicate(p@),
        BoundExpressionTree::And(l, r) => TreeView::And(Box::new(tree_view(l)), Box::new(tree_view(r))),
        BoundExpressionTree::Or(l, r) => TreeView::Or(Box::new(tree_view(l)), Box::new(tree_view(r))),
        BoundExpressionTree::Not(c) => TreeView::Not(Box::new(tree_view(c))),
    }
}

impl View for BoundExpressionTree {
    type V = TreeView;

    open spec fn view(&self) -> TreeView {
        tree_view(self)
    }
}

/// What `BoundExpressionTree::and` builds.
pub open spec fn tree_and(l: TreeView, r: TreeView) -> TreeView {
    if l is False || r is False {
        TreeView::False
    } else if l is True {
        r
    } else if r is True {
        l
    } else {
        TreeView::And(Box::new(l), Box::new(r))
    }
}

/// What `BoundExpressionTree::or` builds.
pub open spec fn tree_or(l: TreeView, r: TreeView) -> TreeView {
    if l is True || r is True {
        TreeView::True
    } else if l is False {
        r
    } else if r is False {
        l
    } else {
        TreeView::Or(Box::new(l), Box::new(r))
    }
}

/// What `BoundExpressionTree::not` builds.
pub open spec fn tree_not(c: TreeView) -> TreeView {
    match c {
        TreeView::True => TreeView::False,
        TreeView::False => TreeView::True,
        TreeView::Not(inner) => *inner,
        _ => TreeView::Not(Box::new(c)),
    }
}

impl BoundExpressionTree {
    /// The tree that always holds.
    pub fn always_true() -> (r: BoundExpressionTree)
        ensures
            r@ == TreeView::True,
    {
        BoundExpressionTree::True
    }

    /// The tree that never holds.
    pub fn always_false() -> (r: BoundExpressionTree)
        ensures
            r@ == TreeView::False,
    {
        BoundExpressionTree::False
    }

    /// A tree made of one predicate.
    pub fn predicate(pred: BoundPredicate) -> (r: BoundExpressionTree)
        ensures
            r@ == TreeView::Predicate(pred@),
    {
        BoundExpressionTree::Predicate(pred)
    }

    /// The conjunction of two trees, simplified where a side is a constant.
    pub fn and(left: BoundExpressionTree, right: BoundExpressionTree) -> (r: BoundExpressionTree)
        ensures
            r@ == tree_and(left@, right@),
    {
        match (&left, &right) {
            (BoundExpressionTree::False, _) => return BoundExpressionTree::False,
            (_, BoundExpressionTree::False) => return BoundExpressionTree::False,
            _ => {},
        }
        if let BoundExpressionTree::True = left {
            return right;
        }
        if let BoundExpressionTree::True = right {
            return left;
        }
        BoundExpressionTree::And(Box::new(left), Box::new(right))
    }

    /// The disjunction of two trees, simplified where a side is a constant.
    pub fn or(left: BoundExpressionTree, right: BoundExpressionTree) -> (r: BoundExpressionTree)
        ensures
            r@ == tree_or(left@, right@),
    {
        match (&left, &right) {
            (BoundExpressionTree::True, _) => return BoundExpressionTree::True,
            (_, BoundExpressionTree::True) => return BoundExpressionTree::True,
            _ => {},
        }
        if let BoundExpressionTree::False = left {
            return right;
        }
        if let BoundExpressionTree::False = right {
            return left;
        }
        BoundExpressionTree::Or(Box::new(left), Box::new(right))
    }

    /// The negation of a tree: constants swap and a double negation drops.
    pub fn not(child: BoundExpressionTree) -> (r: BoundExpressionTree)
        ensures
            r@ == tree_not(child@),
    {
        match child {
            BoundExpressionTree::True => BoundExpressionTree::False,
            BoundExpressionTree::False => BoundExpressionTree::True,
            BoundExpressionTree::Not(inner) => *inner,
            _ => BoundExpressionTree::Not(Box::new(child)),
        }
    }

    /// Whether this tree holds of a row.
    pub fn eval<A: Accessor>(&self, accessor: &A) -> (r: bool)
        ensures
            r == tree_holds(self@, accessor.row()),
        decreases self,
    {
        match self {
            BoundExpressionTree::True => true,
            BoundExpressionTree::False => false,
            BoundExpressionTree::Predicate(pred) => pred.test(accessor),
            BoundExpressionTree::And(left, right) => left.eval(accessor) && right.eval(accessor),
            BoundExpressionTree::Or(left, right) => left.eval(accessor) || right.eval(accessor),
            BoundExpressionTree::Not(child) => !child.eval(accessor),
        }
    }

    /// A copy of this tree.
    pub fn duplicate(&self) -> (r: BoundExpressionTree)
        ensures
            r@ == self@,
        decreases self,
    {
        match self {
            BoundExpressionTree::True => BoundExpressionTree::True,
            BoundExpressionTree::False => BoundExpressionTree::False,
            BoundExpressionTree::Predicate(p) => BoundExpressionTree::Predicate(p.duplicate()),
            BoundExpressionTree::And(l, r) => BoundExpressionTree::And(Box::new(l.duplicate()), Box::new(r.duplicate())),
            BoundExpressionTree::Or(l, r) => BoundExpressionTree::Or(Box::new(l.duplicate()), Box::new(r.duplicate())),
            BoundExpressionTree::Not(c) => BoundExpressionTree::Not(Box::new(c.duplicate())),
        }
    }

    /// Whether this tree is the constant true.
    pub fn is_always_true(&self) -> (r: bool)
        ensures
            r == (self@ is True),
    {
        match self {
            BoundExpressionTree::True => true,
            _ => false,
        }
    }

    /// Whether this tree is the constant false.
    pub fn is_always_false(&self) -> (r: bool)
        ensures
            r == (self@ is False),
    {
        match self {
            BoundExpressionTree::False => true,
            _ => false,
        }
    }
}

/// The simplified conjunction holds of a row exactly when both operands do.
pub proof fn lemma_and_holds(l: TreeView, r: TreeView, row: Seq<DatumView>)
    ensures
        tree_holds(tree_and(l, r), row) == (tree_holds(l, row) && tree_holds(r, row)),
{
}

/// The simplified disjunction holds of a row exactly when either operand does.
pub proof fn lemma_or_holds(l: TreeView, r: TreeView, row: Seq<DatumView>)
    ensures
        tree_holds(tree_or(l, r), row) == (tree_holds(l, row) || tree_holds(r, row)),
{
}

/// The simplified negation holds of a row exactly when its operand does not.
pub proof fn lemma_not_holds(c: TreeView, row: Seq<DatumView>)
    ensures
        tree_holds(tree_not(c), row) == !tree_holds(c, row),
{
}

/// Negating a tree twice gives it back, unless it is a Not node over a constant or
/// over another Not node, which one negation already simplifies away.
pub proof fn lemma_not_not(t: TreeView)
    requires
        !(t matches TreeView::Not(c) && (*c is True || *c is False || *c is Not)),
    ensures
        tree_not(tree_not(t)) == t,
{
}

} // verus!
