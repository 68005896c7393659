use mxmlc::ast::{Expression, ExpressionKind, Location, QualifiedIdentifier, QualifiedIdentifierIdentifier};
use mxmlc::program_verifier::Verifier;
use mxmlc::semantics::{Database, Entity, Ty};
use mxmlc::subverifier::VerifierExpressionContext;

fn loc(first: usize, last: usize) -> Location {
    Location { first_offset: first, last_offset: last }
}

fn name_exp(id: u64, name: &str, first: usize) -> Expression {
    Expression {
        id,
        location: loc(first, first + name.len()),
        kind: ExpressionKind::QualifiedIdentifier(QualifiedIdentifier {
            location: loc(first, first + name.len()),
            attribute: false,
            qualifier: None,
            id: QualifiedIdentifierIdentifier::Id(name.to_string(), loc(first, first + name.len())),
        }),
    }
}

fn qualified_exp(id: u64, qualifier: Expression, name: &str, first: usize, name_first: usize) -> Expression {
    Expression {
        id,
        location: loc(first, name_first + name.len()),
        kind: ExpressionKind::QualifiedIdentifier(QualifiedIdentifier {
            location: loc(first, name_first + name.len()),
            attribute: false,
            qualifier: Some(Box::new(qualifier)),
            id: QualifiedIdentifierIdentifier::Id(name.to_string(), loc(name_first, name_first + name.len())),
        }),
    }
}

#[test]
fn test_exp() {
    // Prepare the host
    let mut host = Database::new();
    host.set_config_constant("FOO::X".to_string(), "true".to_string());

    // The expression `FOO::X`
    let exp = qualified_exp(1, name_exp(2, "FOO", 0), "X", 0, 5);

    // Verification in a scope that imports the top-level package
    let mut verifier = Verifier::new(host);
    verifier.set_scope(0);
    let cv = verifier.verify_expression(&exp, &VerifierExpressionContext::default());

    assert!(cv.is_some());
    match cv {
        Some(Entity::BooleanConstant { value, ty }) => {
            assert!(value);
            assert!(ty.same(&Ty::Boolean));
        },
        _ => panic!("expected a Boolean constant"),
    }
    assert!(!verifier.invalidated());
}

use mxmlc::ast::{Directive, DirectiveKind, NumberSuffix, Operator, Program, VariableBinding};
use mxmlc::diagnostics::DiagnosticKind;
use mxmlc::semantics::{ConstantValue, NumberValue, Property, PropertyKind};

fn num_exp(id: u64, value: &str, first: usize) -> Expression {
    Expression {
        id,
        location: loc(first, first + value.len()),
        kind: ExpressionKind::NumericLiteral { value: value.to_string(), suffix: NumberSuffix::Plain },
    }
}

fn str_exp(id: u64, value: &str, first: usize) -> Expression {
    Expression { id, location: loc(first, first + value.len() + 2), kind: ExpressionKind::StringLiteral { value: value.to_string() } }
}

fn bool_exp(id: u64, value: bool, first: usize) -> Expression {
    Expression { id, location: loc(first, first + 4), kind: ExpressionKind::BooleanLiteral { value } }
}

fn binary(id: u64, operator: Operator, left: Expression, right: Expression) -> Expression {
    let l = loc(left.location.first_offset, right.location.last_offset);
    Expression { id, location: l, kind: ExpressionKind::Binary { operator, left: Box::new(left), right: Box::new(right) } }
}

fn unary(id: u64, operator: Operator, e: Expression) -> Expression {
    let l = loc(e.location.first_offset - 1, e.location.last_offset);
    Expression { id, location: l, kind: ExpressionKind::Unary { operator, expression: Box::new(e) } }
}

fn with_type(t: Ty) -> VerifierExpressionContext {
    VerifierExpressionContext {
        context_type: Some(t),
        followed_by_type_arguments: false,
        followed_by_call: false,
        mode: mxmlc::subverifier::VerifyMode::Read,
        preceded_by_negative: false,
    }
}

fn int_host() -> Database {
    let mut db = Database::new();
    db.packages[0].properties.push(Property { name: "int".to_string(), kind: PropertyKind::Type { ty: Ty::Int }, has_capture: false, location: None });
    db
}

/// `const name: int = value;`
fn int_const(id: u64, name: &str, value: &str, first: usize) -> Directive {
    Directive {
        id,
        location: loc(first, first + 20),
        kind: DirectiveKind::VariableDefinition {
            is_const: true,
            attributes: vec![],
            bindings: vec![VariableBinding {
                location: loc(first + 6, first + 7),
                pattern: Box::new(name_exp(id + 1, name, first + 6)),
                type_annotation: Some(Box::new(name_exp(id + 2, "int", first + 9))),
                initializer: Some(Box::new(num_exp(id + 3, value, first + 15))),
            }],
        },
    }
}

fn verified(directives: Vec<Directive>, exp: &Expression) -> (Option<Entity>, Verifier) {
    let mut v = Verifier::new(int_host());
    v.verify_programs(&vec![Program { packages: vec![], directives }]);
    v.set_scope(0);
    let r = v.verify_expression(exp, &VerifierExpressionContext::default());
    (r, v)
}

fn has_diagnostic(v: &Verifier, kind: DiagnosticKind, offset: usize) -> bool {
    v.host().diagnostics.iter().any(|d| d.kind == kind && d.location.first_offset == offset)
}

#[test]
fn numeric_literal_takes_an_integer_context() {
    let mut v = Verifier::new(Database::new());
    v.set_scope(0);
    let r = v.verify_expression(&num_exp(1, "10", 0), &with_type(Ty::Int));
    assert!(matches!(r, Some(Entity::NumberConstant { value: NumberValue::Int(10), ty: Ty::Int })));
    let r = v.verify_expression(&num_exp(2, "0x10", 0), &with_type(Ty::Uint));
    assert!(matches!(r, Some(Entity::NumberConstant { value: NumberValue::Uint(16), ty: Ty::Uint })));
    let r = v.verify_expression(&num_exp(3, "1.5", 0), &VerifierExpressionContext::default());
    assert!(matches!(r, Some(Entity::NumberConstant { value: NumberValue::Real, ty: Ty::Number })));
}

#[test]
fn integer_literal_out_of_range_is_an_error() {
    let mut v = Verifier::new(Database::new());
    v.set_scope(0);
    let r = v.verify_expression(&num_exp(1, "3000000000", 5), &with_type(Ty::Int));
    assert!(r.is_none());
    assert!(has_diagnostic(&v, DiagnosticKind::CouldNotParseNumber, 5));
    assert!(v.invalidated());
}

#[test]
fn string_literal_is_a_constant() {
    let mut v = Verifier::new(Database::new());
    v.set_scope(0);
    match v.verify_expression(&str_exp(1, "abc", 0), &VerifierExpressionContext::default()) {
        Some(Entity::StringConstant { value, ty }) => {
            assert_eq!(value, "abc");
            assert!(ty.same(&Ty::String));
        },
        _ => panic!("expected a string constant"),
    }
}

/// A package-level `const name: int = value`, a property of the top-level package.
fn package_int_const(db: &mut Database, name: &str, value: i32) {
    db.packages[0].properties.push(Property { name: name.to_string(), kind: PropertyKind::Variable {
        static_type: Ty::Int, read_only: true, write_only: false, constant: Some(ConstantValue::Number(NumberValue::Int(value))) },
        has_capture: false, location: None });
}

fn verify_with(db: Database, exp: &Expression) -> (Option<Entity>, Verifier) {
    let mut v = Verifier::new(db);
    v.set_scope(0);
    let r = v.verify_expression(exp, &VerifierExpressionContext::default());
    (r, v)
}

#[test]
fn integer_constants_fold() {
    let mut db = int_host();
    package_int_const(&mut db, "a", 6);
    package_int_const(&mut db, "b", 7);
    let exp = binary(100, Operator::Multiply, name_exp(101, "a", 60), name_exp(102, "b", 64));
    let (r, v) = verify_with(db, &exp);
    assert!(!v.invalidated());
    assert!(matches!(r, Some(Entity::NumberConstant { value: NumberValue::Int(42), ty: Ty::Int })));
}

#[test]
fn scope_constants_stay_references() {
    let exp = binary(100, Operator::Multiply, name_exp(101, "a", 60), name_exp(102, "b", 64));
    let (r, v) = verified(vec![int_const(1, "a", "6", 0), int_const(10, "b", "7", 30)], &exp);
    assert!(!v.invalidated());
    assert!(matches!(r, Some(Entity::Value { ty: Ty::Int })));
}

#[test]
fn integer_addition_wraps() {
    let mut db = int_host();
    package_int_const(&mut db, "m", 2147483647);
    let exp = binary(100, Operator::Add, name_exp(101, "m", 60), name_exp(102, "m", 64));
    let (r, _) = verify_with(db, &exp);
    assert!(matches!(r, Some(Entity::NumberConstant { value: NumberValue::Int(-2), ty: Ty::Int })));
}

#[test]
fn boolean_operators_fold() {
    let mut v = Verifier::new(Database::new());
    v.set_scope(0);
    let r = v.verify_expression(&binary(1, Operator::LogicalAnd, bool_exp(2, true, 0), bool_exp(3, false, 8)), &VerifierExpressionContext::default());
    assert!(matches!(r, Some(Entity::BooleanConstant { value: false, .. })));
    let r = v.verify_expression(&binary(4, Operator::Equals, bool_exp(5, true, 0), bool_exp(6, true, 8)), &VerifierExpressionContext::default());
    assert!(matches!(r, Some(Entity::BooleanConstant { value: true, .. })));
    let r = v.verify_expression(&unary(7, Operator::LogicalNot, bool_exp(8, true, 1)), &VerifierExpressionContext::default());
    assert!(matches!(r, Some(Entity::BooleanConstant { value: false, .. })));
}

#[test]
fn number_comparison_folds() {
    let mut v = Verifier::new(Database::new());
    v.set_scope(0);
    let r = v.verify_expression(&binary(1, Operator::Gt, num_exp(2, "5", 0), num_exp(3, "3", 4)), &VerifierExpressionContext::default());
    assert!(matches!(r, Some(Entity::BooleanConstant { value: true, ty: Ty::Boolean })));
    let r = v.verify_expression(&binary(4, Operator::Equals, num_exp(5, "2", 0), num_exp(6, "3", 5)), &VerifierExpressionContext::default());
    assert!(matches!(r, Some(Entity::BooleanConstant { value: false, .. })));
}

#[test]
fn number_arithmetic_folds_exactly() {
    let mut v = Verifier::new(Database::new());
    v.set_scope(0);
    let r = v.verify_expression(&binary(1, Operator::Add, num_exp(2, "1", 0), num_exp(3, "2", 4)), &VerifierExpressionContext::default());
    assert!(matches!(r, Some(Entity::NumberConstant { value: NumberValue::Integer(3), ty: Ty::Number })));
    let r = v.verify_expression(&binary(4, Operator::Divide, num_exp(5, "6", 0), num_exp(6, "3", 4)), &VerifierExpressionContext::default());
    assert!(matches!(r, Some(Entity::NumberConstant { value: NumberValue::Integer(2), .. })));
    let r = v.verify_expression(&binary(7, Operator::Divide, num_exp(8, "7", 0), num_exp(9, "2", 4)), &VerifierExpressionContext::default());
    assert!(matches!(r, Some(Entity::NumberConstant { value: NumberValue::Real, .. })));
    let r = v.verify_expression(&binary(10, Operator::Divide, num_exp(11, "0", 0), num_exp(12, "0", 4)), &VerifierExpressionContext::default());
    assert!(matches!(r, Some(Entity::NumberConstant { value: NumberValue::NaN, .. })));
    let r = v.verify_expression(&unary(13, Operator::Negative, num_exp(14, "4", 1)), &VerifierExpressionContext::default());
    assert!(matches!(r, Some(Entity::NumberConstant { value: NumberValue::Integer(-4), .. })));
}

#[test]
fn logical_not_of_a_number_folds() {
    let mut v = Verifier::new(Database::new());
    v.set_scope(0);
    let r = v.verify_expression(&unary(1, Operator::LogicalNot, num_exp(2, "0", 1)), &VerifierExpressionContext::default());
    assert!(matches!(r, Some(Entity::BooleanConstant { value: true, .. })));
    let r = v.verify_expression(&unary(3, Operator::LogicalNot, num_exp(4, "5", 1)), &VerifierExpressionContext::default());
    assert!(matches!(r, Some(Entity::BooleanConstant { value: false, .. })));
}

#[test]
fn strings_concatenate() {
    let mut v = Verifier::new(Database::new());
    v.set_scope(0);
    match v.verify_expression(&binary(1, Operator::Add, str_exp(2, "ab", 0), str_exp(3, "cd", 7)), &VerifierExpressionContext::default()) {
        Some(Entity::StringConstant { value, .. }) => assert_eq!(value, "abcd"),
        _ => panic!("expected a string constant"),
    }
}

#[test]
fn undefined_name_is_an_error() {
    let mut v = Verifier::new(Database::new());
    v.set_scope(0);
    let r = v.verify_expression(&name_exp(1, "nothing", 3), &VerifierExpressionContext::default());
    assert!(r.is_none());
    assert!(v.host().diagnostics.iter().any(|d| !d.is_warning && d.location.first_offset == 3));
    assert!(v.invalidated());
}

#[test]
fn this_outside_a_function_is_an_error() {
    let mut v = Verifier::new(Database::new());
    v.set_scope(0);
    let r = v.verify_expression(&Expression { id: 1, location: loc(2, 6), kind: ExpressionKind::ThisLiteral }, &VerifierExpressionContext::default());
    assert!(r.is_none());
    assert!(has_diagnostic(&v, DiagnosticKind::UnexpectedThis, 2));
}

#[test]
fn verified_expression_keeps_its_result() {
    let mut v = Verifier::new(Database::new());
    v.set_scope(0);
    let e = binary(1, Operator::LogicalOr, bool_exp(2, false, 0), bool_exp(3, true, 9));
    let first = v.verify_expression(&e, &VerifierExpressionContext::default());
    let second = v.verify_expression(&e, &with_type(Ty::String));
    assert!(matches!(first, Some(Entity::BooleanConstant { value: true, .. })));
    assert!(matches!(second, Some(Entity::BooleanConstant { value: true, .. })));
    assert!(v.host().node_mapping.contains_key(&1));
}

#[test]
fn configuration_constant_must_exist() {
    let mut v = Verifier::new(Database::new());
    v.set_scope(0);
    let r = v.verify_expression(&qualified_exp(1, name_exp(2, "CONFIG", 0), "debug", 0, 8), &VerifierExpressionContext::default());
    assert!(r.is_none());
    assert!(v.invalidated());
}

use mxmlc::subverifier::Subverifier;

#[test]
fn coercion_to_an_unrelated_type_is_an_error() {
    let mut s = Subverifier::new(Database::new());
    s.set_scope(0);
    let r = s.imp_coerce_exp(&str_exp(7, "x", 12), &Ty::Number);
    assert!(matches!(r, Ok(None)));
    assert!(s.host.node_invalidation_mapping.contains_key(&7));
    assert!(s.host.diagnostics.iter().any(|d| d.kind == DiagnosticKind::ImplicitCoercionToUnrelatedType && d.location.first_offset == 12));
}

#[test]
fn coercion_to_the_expected_type_keeps_the_constant() {
    let mut s = Subverifier::new(Database::new());
    s.set_scope(0);
    let r = s.imp_coerce_exp(&num_exp(8, "5", 3), &Ty::Number);
    assert!(matches!(r, Ok(Some(Entity::NumberConstant { value: NumberValue::Integer(5), ty: Ty::Number }))));
    assert!(!s.host.node_invalidation_mapping.contains_key(&8));
    assert!(s.host.diagnostics.is_empty());
}

#[test]
fn literal_needs_no_scope() {
    let mut v = Verifier::new(Database::new());
    let r = v.verify_expression(&bool_exp(9, true, 0), &VerifierExpressionContext::default());
    assert!(matches!(r, Some(Entity::BooleanConstant { value: true, ty: Ty::Boolean })));
    let again = v.verify_expression(&bool_exp(9, true, 0), &VerifierExpressionContext::default());
    assert!(matches!(again, Some(Entity::BooleanConstant { value: true, ty: Ty::Boolean })));
}
