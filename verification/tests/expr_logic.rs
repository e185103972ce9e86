use iceberg_rust_native::expr::logical::{AlwaysFalse, AlwaysTrue, And, Expr, Expression, Not, Or, copy_expr};
use iceberg_rust_native::expr::operation::Operation;
use iceberg_rust_native::expr::reference::{BoundReference, Reference};
use iceberg_rust_native::expr::Expressions;

fn always_true() -> Expr {
    Expr::True(AlwaysTrue)
}

fn always_false() -> Expr {
    Expr::False(AlwaysFalse)
}

#[test]
fn logical_test_always_true() {
    let expr = AlwaysTrue;
    assert_eq!(expr.op(), Operation::True);
    let negated = expr.negate().unwrap();
    assert_eq!(negated.op(), Operation::False);
}

#[test]
fn logical_test_always_false() {
    let expr = AlwaysFalse;
    assert_eq!(expr.op(), Operation::False);
    let negated = expr.negate().unwrap();
    assert_eq!(negated.op(), Operation::True);
}

#[test]
fn test_and_expression() {
    let and_expr = And::new(always_true(), always_false());
    assert_eq!(and_expr.op(), Operation::And);
    assert_eq!(and_expr.left().op(), Operation::True);
    assert_eq!(and_expr.right().op(), Operation::False);
}

#[test]
fn test_and_negate() {
    let and_expr = And::new(always_true(), always_false());
    let negated = and_expr.negate().unwrap();
    assert_eq!(negated.op(), Operation::Or);
}

#[test]
fn test_or_expression() {
    let or_expr = Or::new(always_true(), always_false());
    assert_eq!(or_expr.op(), Operation::Or);
}

#[test]
fn test_or_negate() {
    let or_expr = Or::new(always_true(), always_false());
    let negated = or_expr.negate().unwrap();
    assert_eq!(negated.op(), Operation::And);
}

#[test]
fn test_not_expression() {
    let not_expr = Not::new(always_true());
    assert_eq!(not_expr.op(), Operation::Not);
}

#[test]
fn test_not_negate() {
    let not_expr = Not::new(always_true());
    let negated = not_expr.negate().unwrap();
    assert_eq!(negated.op(), Operation::True);
}

#[test]
fn test_display() {
    assert_eq!(AlwaysTrue.to_display_string(), "true");
    assert_eq!(AlwaysFalse.to_display_string(), "false");
}

#[test]
fn mod_test_always_true() {
    let expr = Expressions::always_true();
    assert_eq!(expr.op(), Operation::True);
}

#[test]
fn mod_test_always_false() {
    let expr = Expressions::always_false();
    assert_eq!(expr.op(), Operation::False);
}

#[test]
fn test_and_short_circuit() {
    let t = Expressions::always_true();
    let f = Expressions::always_false();
    let result = Expressions::and(copy_expr(&f), copy_expr(&t));
    assert_eq!(result.op(), Operation::False);
    let result = Expressions::and(copy_expr(&t), copy_expr(&f));
    assert_eq!(result.op(), Operation::False);
}

#[test]
fn test_or_short_circuit() {
    let t = Expressions::always_true();
    let f = Expressions::always_false();
    let result = Expressions::or(copy_expr(&t), copy_expr(&f));
    assert_eq!(result.op(), Operation::True);
    let result = Expressions::or(copy_expr(&f), copy_expr(&t));
    assert_eq!(result.op(), Operation::True);
}

#[test]
fn and_of_two_predicates_keeps_both() {
    let a = Expr::Unbound(Expressions::is_null("a"));
    let b = Expr::Unbound(Expressions::not_null("b"));
    let result = Expressions::and(a, b);
    assert_eq!(result.op(), Operation::And);
    let negated = result.negate().unwrap();
    assert_eq!(negated.op(), Operation::Or);
}

#[test]
fn not_of_constant_folds() {
    assert_eq!(Expressions::not(Expressions::always_true()).op(), Operation::False);
    assert_eq!(Expressions::not(Expressions::always_false()).op(), Operation::True);
    let n = Expressions::not(Expr::Unbound(Expressions::is_null("x")));
    assert_eq!(n.op(), Operation::NotNull);
}

#[test]
fn double_negation_returns_original_operation() {
    let p = Expr::Unbound(Expressions::less_than("a", iceberg_rust_native::expr::literal::Literal::int32(3)));
    let once = p.negate().unwrap();
    assert_eq!(once.op(), Operation::GtEq);
    let twice = once.negate().unwrap();
    assert_eq!(twice.op(), Operation::Lt);
}

#[test]
fn constants_recognise_equivalents() {
    assert!(AlwaysTrue.is_equivalent_to(&always_true()));
    assert!(!AlwaysTrue.is_equivalent_to(&always_false()));
    assert!(AlwaysFalse.is_equivalent_to(&always_false()));
}

#[test]
fn test_negate() {
    assert_eq!(Operation::IsNull.negate(), Some(Operation::NotNull));
    assert_eq!(Operation::NotNull.negate(), Some(Operation::IsNull));
    assert_eq!(Operation::Lt.negate(), Some(Operation::GtEq));
    assert_eq!(Operation::LtEq.negate(), Some(Operation::Gt));
    assert_eq!(Operation::Gt.negate(), Some(Operation::LtEq));
    assert_eq!(Operation::GtEq.negate(), Some(Operation::Lt));
    assert_eq!(Operation::Eq.negate(), Some(Operation::NotEq));
    assert_eq!(Operation::NotEq.negate(), Some(Operation::Eq));
    assert_eq!(Operation::In.negate(), Some(Operation::NotIn));
    assert_eq!(Operation::NotIn.negate(), Some(Operation::In));
    assert_eq!(Operation::And.negate(), None);
    assert_eq!(Operation::Or.negate(), None);
}

#[test]
fn test_flip_lr() {
    assert_eq!(Operation::Lt.flip_lr(), Some(Operation::Gt));
    assert_eq!(Operation::LtEq.flip_lr(), Some(Operation::GtEq));
    assert_eq!(Operation::Gt.flip_lr(), Some(Operation::Lt));
    assert_eq!(Operation::GtEq.flip_lr(), Some(Operation::LtEq));
    assert_eq!(Operation::Eq.flip_lr(), Some(Operation::Eq));
    assert_eq!(Operation::NotEq.flip_lr(), Some(Operation::NotEq));
}

#[test]
fn test_from_str() {
    assert_eq!(Operation::from_str("LT"), Some(Operation::Lt));
    assert_eq!(Operation::from_str("<"), Some(Operation::Lt));
    assert_eq!(Operation::from_str("EQ"), Some(Operation::Eq));
    assert_eq!(Operation::from_str("="), Some(Operation::Eq));
    assert_eq!(Operation::from_str("AND"), Some(Operation::And));
    assert_eq!(Operation::from_str("UNKNOWN"), None);
}

#[test]
fn from_str_ignores_case_of_names() {
    assert_eq!(Operation::from_str("lt_eq"), Some(Operation::LtEq));
    assert_eq!(Operation::from_str("starts_with"), Some(Operation::StartsWith));
}

#[test]
fn test_is_unary() {
    assert!(Operation::IsNull.is_unary());
    assert!(Operation::NotNull.is_unary());
    assert!(Operation::Not.is_unary());
    assert!(!Operation::Eq.is_unary());
    assert!(!Operation::And.is_unary());
}

#[test]
fn test_is_comparison() {
    assert!(Operation::Lt.is_comparison());
    assert!(Operation::Eq.is_comparison());
    assert!(!Operation::IsNull.is_comparison());
    assert!(!Operation::In.is_comparison());
}

#[test]
fn test_is_set() {
    assert!(Operation::In.is_set());
    assert!(Operation::NotIn.is_set());
    assert!(!Operation::Eq.is_set());
}

#[test]
fn operation_symbols() {
    assert_eq!(Operation::Lt.symbol(), "<");
    assert_eq!(Operation::Eq.to_display_string(), "=");
    assert!(Operation::And.is_logical());
    assert!(!Operation::Eq.is_logical());
}

#[test]
fn test_reference_creation() {
    let ref_ = Reference::new("name");
    assert_eq!(ref_.name(), "name");
}

#[test]
fn test_reference_bind() {
    let ref_ = Reference::new("age");
    let bound = ref_.bind(1, 0, "int");
    assert_eq!(bound.field_id(), 1);
    assert_eq!(bound.name(), "age");
    assert_eq!(bound.pos(), 0);
    assert_eq!(bound.type_str(), "int");
}

#[test]
fn test_reference_display() {
    let ref_ = Reference::new("name");
    assert_eq!(ref_.to_display_string(), "ref(name)");
    let bound = BoundReference::new(1, "name", 0, "string");
    assert_eq!(bound.to_display_string(), "ref(name, id=1, pos=0)");
}

#[test]
fn bound_reference_display_with_large_numbers() {
    let bound = BoundReference::new(-12, "x", 305, "long");
    assert_eq!(bound.to_display_string(), "ref(x, id=-12, pos=305)");
}
