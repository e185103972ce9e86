use std::cmp::Ordering;
use std::collections::HashSet;

use iceberg_rust_native::expr::accessor::{Accessor, PartitionAccessor, StructAccessor};
use iceberg_rust_native::expr::binder::{BindError, Binder, ExpressionBuilder, Schema};
use iceberg_rust_native::expr::datum::Datum;
use iceberg_rust_native::expr::evaluator::{BoundExpressionTree, Evaluator};
use iceberg_rust_native::expr::literal::Literal;
use iceberg_rust_native::expr::logical::{And, Expr, Not, Or};
use iceberg_rust_native::expr::operation::Operation;
use iceberg_rust_native::expr::predicate::{BoundPredicate, LiteralPredicate, SetPredicate, UnaryPredicate, UnboundPredicate};
use iceberg_rust_native::expr::reference::{BoundReference, Reference};
use iceberg_rust_native::expr::Expressions;

fn f32b(x: f32) -> u32 {
    x.to_bits()
}

fn f64b(x: f64) -> u64 {
    x.to_bits()
}

fn create_accessor(values: Vec<Datum>) -> StructAccessor {
    StructAccessor::new(values)
}

fn create_bound_ref(name: &str, pos: usize) -> BoundReference {
    BoundReference::new(0, name, pos, "int")
}

#[test]
fn test_datum_creation() {
    assert!(Datum::null().is_null());
    assert!(!Datum::boolean(true).is_null());
    assert_eq!(Datum::int32(42).as_int(), Some(42));
    assert_eq!(Datum::long(100).as_long(), Some(100));
    assert_eq!(Datum::string("hello").as_str(), Some("hello"));
}

#[test]
fn test_datum_comparison() {
    assert_eq!(Datum::int32(1).compare(&Datum::int32(2)), Some(Ordering::Less));
    assert_eq!(Datum::int32(2).compare(&Datum::int32(1)), Some(Ordering::Greater));
    assert_eq!(Datum::int32(1).compare(&Datum::int32(1)), Some(Ordering::Equal));
    assert_eq!(Datum::int32(1).compare(&Datum::long(1)), Some(Ordering::Equal));
    assert_eq!(Datum::float(f32b(1.0)).compare(&Datum::double(f64b(1.0))), Some(Ordering::Equal));
    assert_eq!(Datum::null().compare(&Datum::null()), Some(Ordering::Equal));
    assert_eq!(Datum::null().compare(&Datum::int32(1)), Some(Ordering::Less));
    assert_eq!(Datum::int32(1).compare(&Datum::null()), Some(Ordering::Greater));
    assert_eq!(Datum::float(f32b(f32::NAN)).compare(&Datum::float(f32b(1.0))), None);
}

#[test]
fn datum_comparison_across_kinds() {
    assert_eq!(Datum::string("abc").compare(&Datum::string("abd")), Some(Ordering::Less));
    assert_eq!(Datum::string("b").compare(&Datum::string("abc")), Some(Ordering::Greater));
    assert_eq!(Datum::binary(vec![1, 2]).compare(&Datum::binary(vec![1, 2, 0])), Some(Ordering::Less));
    assert_eq!(Datum::double(f64b(-2.5)).compare(&Datum::double(f64b(3.0))), Some(Ordering::Less));
    assert_eq!(Datum::long(-7).compare(&Datum::int32(-8)), Some(Ordering::Greater));
    assert_eq!(Datum::boolean(false).compare(&Datum::boolean(true)), Some(Ordering::Less));
    assert_eq!(Datum::string("1").compare(&Datum::int32(1)), None);
}

#[test]
fn test_is_nan() {
    assert!(Datum::float(f32b(f32::NAN)).is_nan());
    assert!(Datum::double(f64b(f64::NAN)).is_nan());
    assert!(!Datum::float(f32b(1.0)).is_nan());
    assert!(!Datum::int32(1).is_nan());
}

#[test]
fn datum_equality_and_types() {
    assert_eq!(Datum::int32(7), Datum::int32(7));
    assert_eq!(Datum::int32(7), Datum::long(7));
    assert_ne!(Datum::int32(7), Datum::string("7"));
    assert!(Datum::int32(7).equals(&Datum::long(7)));
    assert_eq!(Datum::int32(1).type_str(), "int");
    assert_eq!(Datum::string("x").type_str(), "string");
    assert_eq!(Datum::date(3).as_int(), None);
    assert_eq!(Datum::binary(vec![9, 8]).as_bytes(), Some(&[9u8, 8u8][..]));
}

#[test]
fn test_struct_accessor() {
    let accessor = StructAccessor::new(vec![Datum::int32(1), Datum::string("hello"), Datum::boolean(true)]);
    assert_eq!(accessor.get(0), Datum::int32(1));
    assert_eq!(accessor.get(1), Datum::string("hello"));
    assert_eq!(accessor.get(2), Datum::boolean(true));
    assert_eq!(accessor.get(3), Datum::null());
    assert_eq!(accessor.size(), 3);
}

#[test]
fn test_struct_accessor_builder() {
    let accessor = StructAccessor::empty().with_value(Datum::int32(42)).with_value(Datum::string("test"));
    assert_eq!(accessor.size(), 2);
    assert_eq!(accessor.get(0), Datum::int32(42));
}

#[test]
fn struct_accessor_set_replaces_value() {
    let mut accessor = StructAccessor::new(vec![Datum::int32(1), Datum::int32(2)]);
    accessor.set(1, Datum::string("z"));
    assert_eq!(accessor.get(1), Datum::string("z"));
    assert_eq!(accessor.get(0), Datum::int32(1));
}

#[test]
fn test_partition_accessor() {
    let accessor = PartitionAccessor::new().with_field(100, Datum::int32(2024)).with_field(101, Datum::int32(1));
    assert_eq!(accessor.get_by_id(100), Datum::int32(2024));
    assert_eq!(accessor.get_by_id(101), Datum::int32(1));
    assert_eq!(accessor.get_by_id(999), Datum::null());
    assert_eq!(accessor.get(1), Datum::int32(1));
}

#[test]
fn test_literal_creation() {
    let lit = Literal::int32(42);
    assert_eq!(lit.value(), &Datum::int32(42));
    let lit = Literal::string("hello");
    assert_eq!(lit.value(), &Datum::string("hello"));
}

#[test]
fn test_literal_comparison() {
    let lit1 = Literal::int32(1);
    let lit2 = Literal::int32(2);
    assert_eq!(lit1.compare_literal(&lit2), Some(Ordering::Less));
    assert_eq!(lit2.compare_literal(&lit1), Some(Ordering::Greater));
    assert_eq!(lit1.compare_literal(&lit1), Some(Ordering::Equal));
}

#[test]
fn test_type_conversion() {
    let converted = Literal::int32(42).to_type("long").unwrap();
    assert_eq!(converted.value(), &Datum::long(42));
    let converted = Literal::long(100).to_type("int").unwrap();
    assert_eq!(converted.value(), &Datum::int32(100));
    assert!(Literal::long(i64::MAX).to_type("int").is_none());
    let converted = Literal::float(f32b(1.5)).to_type("double").unwrap();
    match converted.value() {
        Datum::Double(v) => assert!((f64::from_bits(*v) - 1.5).abs() < 0.001),
        _ => panic!("Expected Double"),
    }
}

#[test]
fn literal_conversion_to_unknown_type_fails() {
    assert!(Literal::string("x").to_type("int").is_none());
    assert!(Literal::int32(5).to_type("uuid").is_none());
    let same = Literal::string("x").to_type("string").unwrap();
    assert_eq!(same.value(), &Datum::string("x"));
}

#[test]
fn test_unary_is_null() {
    let pred = UnaryPredicate::new(Operation::IsNull, create_bound_ref("a", 0));
    assert!(pred.test(&create_accessor(vec![Datum::null()])));
    assert!(!pred.test(&create_accessor(vec![Datum::int32(1)])));
}

#[test]
fn test_unary_not_null() {
    let pred = UnaryPredicate::new(Operation::NotNull, create_bound_ref("a", 0));
    assert!(pred.test(&create_accessor(vec![Datum::int32(1)])));
    assert!(!pred.test(&create_accessor(vec![Datum::null()])));
}

#[test]
fn test_unary_is_nan() {
    let pred = UnaryPredicate::new(Operation::IsNaN, BoundReference::new(0, "a", 0, "float"));
    assert!(pred.test(&create_accessor(vec![Datum::float(f32b(f32::NAN))])));
    assert!(!pred.test(&create_accessor(vec![Datum::float(f32b(1.0))])));
}

#[test]
fn test_literal_equal() {
    let pred = LiteralPredicate::new(Operation::Eq, create_bound_ref("a", 0), Literal::int32(42));
    assert!(pred.test(&create_accessor(vec![Datum::int32(42)])));
    assert!(!pred.test(&create_accessor(vec![Datum::int32(100)])));
}

#[test]
fn test_literal_less_than() {
    let pred = LiteralPredicate::new(Operation::Lt, create_bound_ref("a", 0), Literal::int32(10));
    assert!(pred.test(&create_accessor(vec![Datum::int32(5)])));
    assert!(!pred.test(&create_accessor(vec![Datum::int32(10)])));
    assert!(!pred.test(&create_accessor(vec![Datum::int32(15)])));
}

#[test]
fn test_literal_greater_than() {
    let pred = LiteralPredicate::new(Operation::Gt, create_bound_ref("a", 0), Literal::int32(10));
    assert!(pred.test(&create_accessor(vec![Datum::int32(15)])));
    assert!(!pred.test(&create_accessor(vec![Datum::int32(10)])));
    assert!(!pred.test(&create_accessor(vec![Datum::int32(5)])));
}

#[test]
fn test_literal_starts_with() {
    let pred = LiteralPredicate::new(Operation::StartsWith, BoundReference::new(0, "name", 0, "string"), Literal::string("hello"));
    assert!(pred.test(&create_accessor(vec![Datum::string("hello world")])));
    assert!(!pred.test(&create_accessor(vec![Datum::string("goodbye")])));
}

#[test]
fn test_set_in() {
    let values = vec![Datum::int32(1), Datum::int32(2), Datum::int32(3)];
    let pred = SetPredicate::new(Operation::In, create_bound_ref("a", 0), values);
    assert!(pred.test(&create_accessor(vec![Datum::int32(2)])));
    assert!(!pred.test(&create_accessor(vec![Datum::int32(5)])));
}

#[test]
fn test_set_not_in() {
    let values = vec![Datum::int32(1), Datum::int32(2), Datum::int32(3)];
    let pred = SetPredicate::new(Operation::NotIn, create_bound_ref("a", 0), values);
    assert!(pred.test(&create_accessor(vec![Datum::int32(5)])));
    assert!(!pred.test(&create_accessor(vec![Datum::int32(2)])));
}

#[test]
fn set_predicate_drops_duplicates() {
    let values = vec![Datum::int32(1), Datum::int32(1), Datum::int32(3)];
    let pred = SetPredicate::new(Operation::In, create_bound_ref("a", 0), values);
    assert_eq!(pred.values().len(), 2);
}

#[test]
fn test_null_handling() {
    let pred = LiteralPredicate::new(Operation::Eq, create_bound_ref("a", 0), Literal::int32(42));
    assert!(!pred.test(&create_accessor(vec![Datum::null()])));
}

#[test]
fn test_unbound_predicate_bind() {
    let unbound = UnboundPredicate::literal(Operation::Eq, Reference::new("age"), Literal::int32(25));
    let bound = unbound.bind(BoundReference::new(1, "age", 0, "int"));
    assert!(bound.test(&create_accessor(vec![Datum::int32(25)])));
}

#[test]
fn unbound_predicate_negation() {
    let unbound = UnboundPredicate::literal(Operation::Lt, Reference::new("age"), Literal::int32(25));
    let negated = unbound.negate().unwrap();
    assert_eq!(negated.op(), Operation::GtEq);
    assert_eq!(negated.term().name(), "age");
    let bound = negated.bind(BoundReference::new(1, "age", 0, "int"));
    assert!(bound.test(&create_accessor(vec![Datum::int32(25)])));
    assert!(!bound.test(&create_accessor(vec![Datum::int32(24)])));
}

#[test]
fn test_bound_expression_tree_constants() {
    let accessor = create_accessor(vec![]);
    assert!(BoundExpressionTree::True.eval(&accessor));
    assert!(!BoundExpressionTree::False.eval(&accessor));
}

#[test]
fn test_bound_expression_tree_predicate() {
    let pred = LiteralPredicate::new(Operation::Eq, create_bound_ref("a", 0), Literal::int32(42));
    let tree = BoundExpressionTree::predicate(BoundPredicate::Literal(pred));
    assert!(tree.eval(&create_accessor(vec![Datum::int32(42)])));
    assert!(!tree.eval(&create_accessor(vec![Datum::int32(100)])));
}

#[test]
fn test_bound_expression_tree_and() {
    let pred1 = LiteralPredicate::new(Operation::Eq, create_bound_ref("a", 0), Literal::int32(42));
    let pred2 = LiteralPredicate::new(Operation::Eq, BoundReference::new(1, "b", 1, "string"), Literal::string("hello"));
    let tree = BoundExpressionTree::and(
        BoundExpressionTree::predicate(BoundPredicate::Literal(pred1)),
        BoundExpressionTree::predicate(BoundPredicate::Literal(pred2)),
    );
    assert!(tree.eval(&create_accessor(vec![Datum::int32(42), Datum::string("hello")])));
    assert!(!tree.eval(&create_accessor(vec![Datum::int32(100), Datum::string("hello")])));
    assert!(!tree.eval(&create_accessor(vec![Datum::int32(42), Datum::string("world")])));
}

#[test]
fn test_bound_expression_tree_or() {
    let pred1 = LiteralPredicate::new(Operation::Eq, create_bound_ref("a", 0), Literal::int32(42));
    let pred2 = LiteralPredicate::new(Operation::Eq, create_bound_ref("a", 0), Literal::int32(100));
    let tree = BoundExpressionTree::or(
        BoundExpressionTree::predicate(BoundPredicate::Literal(pred1)),
        BoundExpressionTree::predicate(BoundPredicate::Literal(pred2)),
    );
    assert!(tree.eval(&create_accessor(vec![Datum::int32(42)])));
    assert!(tree.eval(&create_accessor(vec![Datum::int32(100)])));
    assert!(!tree.eval(&create_accessor(vec![Datum::int32(50)])));
}

#[test]
fn test_bound_expression_tree_not() {
    let pred = LiteralPredicate::new(Operation::Eq, create_bound_ref("a", 0), Literal::int32(42));
    let tree = BoundExpressionTree::not(BoundExpressionTree::predicate(BoundPredicate::Literal(pred)));
    assert!(!tree.eval(&create_accessor(vec![Datum::int32(42)])));
    assert!(tree.eval(&create_accessor(vec![Datum::int32(100)])));
}

#[test]
fn test_bound_expression_tree_short_circuit() {
    let tree = BoundExpressionTree::and(BoundExpressionTree::False, BoundExpressionTree::True);
    assert!(tree.is_always_false());
    let tree = BoundExpressionTree::or(BoundExpressionTree::True, BoundExpressionTree::False);
    assert!(tree.is_always_true());
    let tree = BoundExpressionTree::not(BoundExpressionTree::not(BoundExpressionTree::True));
    assert!(tree.is_always_true());
}

#[test]
fn evaluator_test_complex_expression() {
    let pred1 = LiteralPredicate::new(Operation::Gt, create_bound_ref("a", 0), Literal::int32(10));
    let pred2 = LiteralPredicate::new(Operation::Lt, create_bound_ref("a", 0), Literal::int32(100));
    let pred3 = LiteralPredicate::new(Operation::Eq, create_bound_ref("a", 0), Literal::int32(-1));
    let tree = BoundExpressionTree::or(
        BoundExpressionTree::and(
            BoundExpressionTree::predicate(BoundPredicate::Literal(pred1)),
            BoundExpressionTree::predicate(BoundPredicate::Literal(pred2)),
        ),
        BoundExpressionTree::predicate(BoundPredicate::Literal(pred3)),
    );
    assert!(tree.eval(&create_accessor(vec![Datum::int32(50)])));
    assert!(tree.eval(&create_accessor(vec![Datum::int32(-1)])));
    assert!(!tree.eval(&create_accessor(vec![Datum::int32(200)])));
    assert!(!tree.eval(&create_accessor(vec![Datum::int32(10)])));
}

#[test]
fn evaluator_over_expression_tree() {
    let t = Evaluator::new(Expressions::always_true());
    assert!(t.eval(&create_accessor(vec![])));
    let f = Evaluator::new(Expressions::always_false());
    assert!(!f.eval(&create_accessor(vec![])));
    let unbound = Evaluator::new(Expr::Unbound(Expressions::is_null("a")));
    assert!(!unbound.eval(&create_accessor(vec![Datum::null()])));
}

#[test]
fn evaluator_follows_the_tree() {
    let empty = create_accessor(vec![]);
    let ff = Evaluator::new(Expr::And(And::new(Expressions::always_false(), Expressions::always_false())));
    assert!(!ff.eval(&empty));
    let nf = Evaluator::new(Expr::Not(Not::new(Expressions::always_false())));
    assert!(nf.eval(&empty));
    let ft = Evaluator::new(Expr::Or(Or::new(Expressions::always_false(), Expressions::always_true())));
    assert!(ft.eval(&empty));
    let eq = |v: i32| {
        Expr::Bound(BoundPredicate::Literal(LiteralPredicate::new(Operation::Eq, create_bound_ref("a", 0), Literal::int32(v))))
    };
    let either = Evaluator::new(Expr::Or(Or::new(eq(1), eq(2))));
    assert!(either.eval(&create_accessor(vec![Datum::int32(2)])));
    assert!(!either.eval(&create_accessor(vec![Datum::int32(3)])));
    let not_one = Evaluator::new(Expr::Not(Not::new(eq(1))));
    assert!(not_one.eval(&create_accessor(vec![Datum::int32(3)])));
    assert!(!not_one.eval(&create_accessor(vec![Datum::int32(1)])));
}

fn create_test_schema() -> Schema {
    Schema::builder()
        .required_field(1, "id", "long")
        .field(2, "name", "string")
        .field(3, "age", "int")
        .field(4, "salary", "double")
        .build()
}

fn row(id: i64, name: Datum, age: i32, salary: f64) -> StructAccessor {
    StructAccessor::new(vec![Datum::long(id), name, Datum::int32(age), Datum::double(f64b(salary))])
}

#[test]
fn test_schema_builder() {
    let schema = create_test_schema();
    let id_field = schema.field("id").unwrap();
    assert_eq!(id_field.field_id, 1);
    assert_eq!(id_field.type_str, "long");
    assert_eq!(id_field.position, 0);
    assert!(id_field.required);
    let name_field = schema.field("name").unwrap();
    assert_eq!(name_field.field_id, 2);
    assert_eq!(name_field.position, 1);
    assert!(!name_field.required);
}

#[test]
fn test_case_insensitive_lookup() {
    let schema = create_test_schema();
    assert_eq!(schema.field_case_insensitive("NAME").unwrap().name, "name");
    assert_eq!(schema.field_case_insensitive("Age").unwrap().name, "age");
    assert!(schema.field("Age").is_none());
}

#[test]
fn schema_lookup_by_id_and_names() {
    let schema = create_test_schema();
    assert_eq!(schema.field_by_id(4).unwrap().name, "salary");
    assert!(schema.field_by_id(9).is_none());
    assert_eq!(schema.field_names(), vec!["id".to_string(), "name".to_string(), "age".to_string(), "salary".to_string()]);
}

#[test]
fn test_binder_bind_predicate() {
    let binder = Binder::new(create_test_schema());
    let pred = UnboundPredicate::literal(Operation::Eq, Reference::new("age"), Literal::int32(25));
    let bound = binder.bind_predicate(&pred).unwrap();
    assert_eq!(bound.term().field_id(), 3);
    assert_eq!(bound.term().pos(), 2);
}

#[test]
fn test_binder_field_not_found() {
    let binder = Binder::new(create_test_schema());
    let pred = UnboundPredicate::literal(Operation::Eq, Reference::new("unknown_field"), Literal::int32(25));
    let result = binder.bind_predicate(&pred);
    assert!(matches!(result, Err(BindError::FieldNotFound(_))));
}

#[test]
fn binder_case_insensitive() {
    let binder = Binder::new(create_test_schema()).case_sensitive(false);
    let pred = UnboundPredicate::unary(Operation::IsNull, Reference::new("NAME"));
    let bound = binder.bind_predicate(&pred).unwrap();
    assert_eq!(bound.term().field_id(), 2);
    let strict = Binder::new(create_test_schema());
    assert_eq!(strict.bind_predicate(&pred).unwrap_err(), BindError::FieldNotFound("NAME".to_string()));
}

#[test]
fn test_expression_builder() {
    let builder = ExpressionBuilder::new(create_test_schema());
    let expr = builder.and(
        builder.greater_than_or_equal("age", Literal::int32(18)).unwrap(),
        builder.less_than("age", Literal::int32(65)).unwrap(),
    );
    assert!(expr.eval(&row(1, Datum::string("John"), 30, 50000.0)));
    assert!(!expr.eval(&row(2, Datum::string("Child"), 10, 0.0)));
    assert!(!expr.eval(&row(3, Datum::string("Senior"), 70, 30000.0)));
}

#[test]
fn test_expression_builder_in_list() {
    let builder = ExpressionBuilder::new(create_test_schema());
    let expr = builder.in_list("age", vec![Literal::int32(25), Literal::int32(30), Literal::int32(35)]).unwrap();
    assert!(expr.eval(&row(1, Datum::string("John"), 30, 50000.0)));
    assert!(!expr.eval(&row(2, Datum::string("Jane"), 28, 55000.0)));
}

#[test]
fn test_expression_builder_is_null() {
    let builder = ExpressionBuilder::new(create_test_schema());
    let expr = builder.is_null("name").unwrap();
    assert!(expr.eval(&row(1, Datum::null(), 30, 50000.0)));
    assert!(!expr.eval(&row(1, Datum::string("John"), 30, 50000.0)));
}

#[test]
fn test_expression_builder_starts_with() {
    let builder = ExpressionBuilder::new(create_test_schema());
    let expr = builder.starts_with("name", "John").unwrap();
    assert!(expr.eval(&row(1, Datum::string("John Doe"), 30, 50000.0)));
    assert!(!expr.eval(&row(2, Datum::string("Jane Doe"), 28, 55000.0)));
}

#[test]
fn binder_test_complex_expression() {
    let builder = ExpressionBuilder::new(create_test_schema());
    let expr = builder.or(
        builder.and(
            builder.greater_than_or_equal("age", Literal::int32(18)).unwrap(),
            builder.greater_than("salary", Literal::double(f64b(40000.0))).unwrap(),
        ),
        builder.starts_with("name", "VIP").unwrap(),
    );
    assert!(expr.eval(&row(1, Datum::string("John"), 30, 50000.0)));
    assert!(expr.eval(&row(2, Datum::string("VIP Customer"), 10, 0.0)));
    assert!(!expr.eval(&row(3, Datum::string("Child"), 10, 0.0)));
}

#[test]
fn expression_builder_unknown_column() {
    let builder = ExpressionBuilder::new(create_test_schema());
    assert!(matches!(builder.not_null("missing"), Err(BindError::FieldNotFound(_))));
    assert!(builder.always_true().is_always_true());
    assert!(builder.always_false().is_always_false());
}

#[test]
fn test_uuid_from_str() {
    let uuid = Datum::uuid_from_str("550e8400-e29b-41d4-a716-446655440000").unwrap();
    match uuid {
        Datum::Uuid(bytes) => {
            assert_eq!(bytes[0], 0x55);
            assert_eq!(bytes[15], 0x00);
        }
        _ => panic!("Expected UUID"),
    }
}

#[test]
fn uuid_text_edge_cases() {
    assert!(Datum::uuid_from_str("550e8400e29b41d4a716446655440000").is_some());
    assert!(Datum::uuid_from_str("550e8400-e29b-41d4-a716-44665544000").is_none());
    assert!(Datum::uuid_from_str("zz0e8400-e29b-41d4-a716-446655440000").is_none());
    match Datum::uuid_from_str("+50e8400-e29b-41d4-a716-4466554400AB").unwrap() {
        Datum::Uuid(bytes) => {
            assert_eq!(bytes[0], 0x05);
            assert_eq!(bytes[15], 0xAB);
        }
        _ => panic!("Expected UUID"),
    }
}

#[test]
fn test_datum_hash() {
    let mut set = HashSet::new();
    set.insert(Datum::int32(1));
    set.insert(Datum::int32(2));
    set.insert(Datum::int32(1));
    assert_eq!(set.len(), 2);
}

#[test]
fn bind_error_texts() {
    assert_eq!(BindError::FieldNotFound("x".to_string()).to_display_string(), "Field not found: x");
    let e = BindError::TypeMismatch { field: "a".to_string(), expected: "int".to_string(), actual: "string".to_string() };
    assert_eq!(e.to_display_string(), "Type mismatch for field a: expected int, got string");
    assert_eq!(BindError::InvalidExpression("bad".to_string()).to_display_string(), "Invalid expression: bad");
}

#[test]
fn test_bound_reference_eval() {
    let bound = BoundReference::new(1, "age", 0, "int");
    let accessor = StructAccessor::new(vec![Datum::int32(25)]);
    assert_eq!(bound.eval(&accessor), Datum::int32(25));
}

#[test]
fn literal_and_datum_from_values() {
    let lit: Literal = 42i32.into();
    assert_eq!(lit.value(), &Datum::int32(42));
    let lit: Literal = "hello".to_string().into();
    assert_eq!(lit.value(), &Datum::string("hello"));
    let lit: Literal = Literal::from(true);
    assert_eq!(lit.value(), &Datum::boolean(true));
    let d: Datum = 7i64.into();
    assert_eq!(d, Datum::long(7));
    let d: Datum = vec![1u8, 2].into();
    assert_eq!(d.as_bytes(), Some(&[1u8, 2][..]));
}
