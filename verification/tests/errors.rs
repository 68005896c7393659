use mxmlc::ast::{Block, Directive, DirectiveKind, Expression, ExpressionKind, XmlAttribute, XmlAttributeValue, XmlContent, XmlElement, XmlTagName, FunctionBody, FunctionCommon, FunctionNameKind,
    FunctionSignature, Location, NumberSuffix, Operator, Parameter, Program, QualifiedIdentifier, QualifiedIdentifierIdentifier,
    VariableBinding};
use mxmlc::diagnostics::DiagnosticKind;
use mxmlc::program_verifier::Verifier;
use mxmlc::semantics::{Database, Entity, ParameterKind, Property, PropertyKind, Ty};
use mxmlc::subverifier::{VerifierExpressionContext, VerifyMode};

fn loc(first: usize, last: usize) -> Location {
    Location { first_offset: first, last_offset: last }
}

fn name_exp(id: u64, name: &str, first: usize) -> Expression {
    let l = loc(first, first + name.len());
    Expression {
        id,
        location: l,
        kind: ExpressionKind::QualifiedIdentifier(QualifiedIdentifier {
            location: l,
            attribute: false,
            qualifier: None,
            id: QualifiedIdentifierIdentifier::Id(name.to_string(), l),
        }),
    }
}

fn bool_exp(id: u64, value: bool, first: usize) -> Expression {
    Expression { id, location: loc(first, first + 4), kind: ExpressionKind::BooleanLiteral { value } }
}

fn num_exp(id: u64, value: &str, first: usize) -> Expression {
    Expression {
        id,
        location: loc(first, first + value.len()),
        kind: ExpressionKind::NumericLiteral { value: value.to_string(), suffix: NumberSuffix::Plain },
    }
}

fn str_exp(id: u64, value: &str, first: usize) -> Expression {
    Expression { id, location: loc(first, first + value.len() + 2), kind: ExpressionKind::StringLiteral { value: value.to_string() } }
}

fn binary(id: u64, operator: Operator, left: Expression, right: Expression) -> Expression {
    let l = loc(left.location.first_offset, right.location.last_offset);
    Expression { id, location: l, kind: ExpressionKind::Binary { operator, left: Box::new(left), right: Box::new(right) } }
}

fn unary(id: u64, first: usize, operator: Operator, e: Expression) -> Expression {
    let l = loc(first, e.location.last_offset);
    Expression { id, location: l, kind: ExpressionKind::Unary { operator, expression: Box::new(e) } }
}

fn context(t: Option<Ty>, mode: VerifyMode) -> VerifierExpressionContext {
    VerifierExpressionContext {
        context_type: t,
        followed_by_type_arguments: false,
        followed_by_call: false,
        mode,
        preceded_by_negative: false,
    }
}

fn host() -> Database {
    let mut db = Database::new();
    for (n, t) in [("Boolean", Ty::Boolean), ("Number", Ty::Number), ("String", Ty::String)] {
        db.packages[0].properties.push(Property { name: n.to_string(), kind: PropertyKind::Type { ty: t }, has_capture: false, location: None });
    }
    db
}

fn verifier_with(directives: Vec<Directive>) -> Verifier {
    let mut v = Verifier::new(host());
    v.verify_programs(&vec![Program { packages: vec![], directives }]);
    v.set_scope(0);
    v
}

fn read(v: &mut Verifier, e: &Expression) -> Option<Entity> {
    v.verify_expression(e, &context(None, VerifyMode::Read))
}

fn has_error(v: &Verifier, kind: DiagnosticKind, offset: usize) -> bool {
    v.host().diagnostics.iter().any(|d| !d.is_warning && d.kind == kind && d.location.first_offset == offset)
}

fn has_warning(v: &Verifier, kind: DiagnosticKind, offset: usize) -> bool {
    v.host().diagnostics.iter().any(|d| d.is_warning && d.kind == kind && d.location.first_offset == offset)
}

fn var_defn(id: u64, first: usize, is_const: bool, name: &str, annotation: Option<Expression>, init: Option<Expression>) -> Directive {
    Directive {
        id,
        location: loc(first, first + 20),
        kind: DirectiveKind::VariableDefinition {
            is_const,
            attributes: vec![],
            bindings: vec![VariableBinding {
                location: loc(first + 4, first + 5),
                pattern: Box::new(name_exp(id + 1, name, first + 4)),
                type_annotation: annotation.map(Box::new),
                initializer: init.map(Box::new),
            }],
        },
    }
}

fn fn_defn(id: u64, name: &str, first: usize, kind: FunctionNameKind, params: Vec<Parameter>, result: Expression) -> Directive {
    Directive {
        id,
        location: loc(first, first + 30),
        kind: DirectiveKind::FunctionDefinition {
            attributes: vec![],
            name: name.to_string(),
            name_location: loc(first, first + name.len()),
            name_kind: kind,
            common: FunctionCommon {
                id: id + 100,
                location: loc(first, first + 30),
                contains_await: false,
                contains_yield: false,
                signature: FunctionSignature { this_parameter: None, parameters: params, result_type: Some(Box::new(result)) },
                body: Some(FunctionBody::Block(Block { id: id + 200, location: loc(first + 20, first + 30), directives: vec![] })),
            },
        },
    }
}

fn param(id: u64, first: usize, name: &str, annotation: Expression) -> Parameter {
    Parameter {
        location: loc(first, first + 1),
        kind: ParameterKind::Required,
        pattern: Box::new(name_exp(id, name, first)),
        type_annotation: Some(Box::new(annotation)),
        default_value: None,
    }
}

fn void_exp(id: u64, first: usize) -> Expression {
    Expression { id, location: loc(first, first + 4), kind: ExpressionKind::VoidType }
}

#[test]
fn null_is_not_expected_in_a_number_context() {
    let mut v = verifier_with(vec![]);
    let r = v.verify_expression(&Expression { id: 1, location: loc(3, 7), kind: ExpressionKind::NullLiteral }, &context(Some(Ty::Int), VerifyMode::Read));
    assert!(r.is_none());
    assert!(has_error(&v, DiagnosticKind::NullNotExpectedHere, 3));
}

#[test]
fn math_on_a_boolean_is_unrelated() {
    let mut v = verifier_with(vec![]);
    let r = read(&mut v, &binary(1, Operator::Multiply, bool_exp(2, true, 0), bool_exp(3, false, 7)));
    assert!(r.is_none());
    assert!(has_error(&v, DiagnosticKind::UnrelatedMathOperation, 0));
    let r = read(&mut v, &binary(4, Operator::Subtract, bool_exp(5, true, 20), num_exp(6, "2", 27)));
    assert!(r.is_none());
    assert!(has_error(&v, DiagnosticKind::ImplicitCoercionToUnrelatedType, 27));
}

#[test]
fn comparing_unrelated_types_is_warned() {
    let mut v = verifier_with(vec![]);
    let r = read(&mut v, &binary(1, Operator::Equals, bool_exp(2, true, 0), str_exp(3, "a", 8)));
    assert!(matches!(r, Some(Entity::Value { ty: Ty::Boolean })));
    assert!(has_warning(&v, DiagnosticKind::ComparisonBetweenUnrelatedTypes, 0));
    assert!(!v.invalidated());
}

#[test]
fn negating_a_string_is_an_error() {
    let mut v = verifier_with(vec![]);
    let r = read(&mut v, &unary(1, 0, Operator::Negative, str_exp(2, "a", 1)));
    assert!(r.is_none());
    assert!(has_error(&v, DiagnosticKind::OperandMustBeNumber, 1));
}

#[test]
fn await_needs_a_promise_and_yield_is_not_supported() {
    let mut v = verifier_with(vec![]);
    let r = read(&mut v, &unary(1, 0, Operator::Await, num_exp(2, "1", 6)));
    assert!(r.is_none());
    assert!(has_error(&v, DiagnosticKind::AwaitOperandMustBeAPromise, 0));
    let r = read(&mut v, &unary(3, 20, Operator::Yield, num_exp(4, "1", 26)));
    assert!(r.is_none());
    assert!(has_error(&v, DiagnosticKind::YieldIsNotSupported, 20));
}

#[test]
fn non_null_on_a_non_nullable_value_is_warned() {
    let mut v = verifier_with(vec![]);
    let r = read(&mut v, &unary(1, 0, Operator::NonNull, bool_exp(2, true, 0)));
    assert!(r.is_some());
    assert!(has_warning(&v, DiagnosticKind::ReferenceIsAlreadyNonNullable, 0));
}

#[test]
fn unrelated_conditional_operands_are_an_error() {
    let mut v = verifier_with(vec![]);
    let e = Expression { id: 1, location: loc(0, 20), kind: ExpressionKind::Conditional {
        test: Box::new(bool_exp(2, true, 0)),
        consequent: Box::new(bool_exp(3, true, 7)),
        alternative: Box::new(str_exp(4, "a", 14)),
    } };
    assert!(read(&mut v, &e).is_none());
    assert!(has_error(&v, DiagnosticKind::UnrelatedTernaryOperands, 0));
}

#[test]
fn calling_a_boolean_is_an_error() {
    let mut v = verifier_with(vec![]);
    let e = Expression { id: 1, location: loc(0, 6), kind: ExpressionKind::Call { base: Box::new(bool_exp(2, true, 0)), arguments: vec![] } };
    assert!(read(&mut v, &e).is_none());
    assert!(has_error(&v, DiagnosticKind::CallOnNonFunction, 0));
}

#[test]
fn initializer_of_an_unrelated_type_is_an_error() {
    let v = verifier_with(vec![var_defn(1, 0, false, "b", Some(name_exp(5, "Boolean", 7)), Some(str_exp(6, "s", 17)))]);
    assert!(has_error(&v, DiagnosticKind::ImplicitCoercionToUnrelatedType, 17));
}

#[test]
fn annotation_must_be_a_type() {
    let v = verifier_with(vec![var_defn(1, 0, false, "b", Some(bool_exp(5, true, 7)), None)]);
    assert!(has_error(&v, DiagnosticKind::EntityIsNotAType, 7));
}

#[test]
fn constant_is_read_only() {
    let mut v = verifier_with(vec![var_defn(1, 0, true, "k", None, Some(bool_exp(6, true, 8)))]);
    let r = v.verify_expression(&name_exp(50, "k", 40), &context(None, VerifyMode::Write));
    assert!(r.is_some());
    assert!(has_error(&v, DiagnosticKind::EntityIsReadOnly, 40));
}

#[test]
fn variable_must_not_be_deleted() {
    let mut v = verifier_with(vec![var_defn(1, 0, false, "x", None, Some(bool_exp(6, true, 8)))]);
    let r = v.verify_expression(&name_exp(50, "x", 40), &context(None, VerifyMode::Delete));
    assert!(r.is_some());
    assert!(has_error(&v, DiagnosticKind::EntityMustNotBeDeleted, 40));
}

#[test]
fn setter_only_property_is_write_only() {
    let set = fn_defn(1, "x", 0, FunctionNameKind::Setter, vec![param(2, 6, "v", name_exp(3, "Boolean", 9))], void_exp(4, 20));
    let mut v = verifier_with(vec![set]);
    assert!(!v.invalidated());
    let r = read(&mut v, &name_exp(50, "x", 60));
    assert!(r.is_some());
    assert!(has_error(&v, DiagnosticKind::EntityIsWriteOnly, 60));
}

#[test]
fn calling_with_too_few_arguments_is_an_error() {
    let f = fn_defn(1, "f", 0, FunctionNameKind::Identifier, vec![param(2, 6, "a", name_exp(3, "Number", 9))], void_exp(4, 20));
    let mut v = verifier_with(vec![f]);
    let e = Expression { id: 60, location: loc(50, 53), kind: ExpressionKind::Call { base: Box::new(name_exp(61, "f", 50)), arguments: vec![] } };
    let _ = read(&mut v, &e);
    assert!(v.host().diagnostics.iter().any(|d| d.kind == DiagnosticKind::IncorrectNumArguments(1)));
    assert!(v.invalidated());
}

#[test]
fn undefined_name_is_reported_as_undefined() {
    let mut v = verifier_with(vec![]);
    assert!(read(&mut v, &name_exp(1, "nothing", 3)).is_none());
    assert!(has_error(&v, DiagnosticKind::UndefinedProperty, 3));
}

#[test]
fn lambda_result_type_is_not_inferred() {
    let c = FunctionCommon {
        id: 20,
        location: loc(0, 30),
        contains_await: false,
        contains_yield: false,
        signature: FunctionSignature { this_parameter: None, parameters: vec![], result_type: None },
        body: Some(FunctionBody::Block(Block { id: 21, location: loc(10, 30), directives: vec![] })),
    };
    let mut v = verifier_with(vec![]);
    let r = read(&mut v, &Expression { id: 1, location: loc(0, 30), kind: ExpressionKind::Function { name: None, common: c } });
    assert!(matches!(r, Some(Entity::LambdaObject { signature: Some(_), .. })));
    assert!(has_warning(&v, DiagnosticKind::ReturnTypeInferenceIsNotImplemented, 0));
    assert!(!v.invalidated());
}

use mxmlc::ast::Element;
use mxmlc::semantics::TypeDef;

fn array_exp(id: u64, first: usize, elements: Vec<Element>) -> Expression {
    Expression { id, location: loc(first, first + 10), kind: ExpressionKind::ArrayLiteral { elements } }
}

#[test]
fn array_literal_takes_its_context_type() {
    let mut v = verifier_with(vec![]);
    let t = Ty::ArrayOf(Box::new(Ty::Boolean));
    let r = v.verify_expression(&array_exp(1, 0, vec![Element::Expression(bool_exp(2, true, 1))]), &context(Some(t.clone()), VerifyMode::Read));
    match r {
        Some(Entity::Value { ty }) => assert!(ty.same(&t)),
        _ => panic!("expected a value of the context type"),
    }
    assert!(!v.invalidated());
}

#[test]
fn array_literal_against_a_tuple_of_another_length_is_an_error() {
    let mut db = host();
    db.types.push(TypeDef::Tuple(vec![Ty::Boolean, Ty::Boolean]));
    let mut v = Verifier::new(db);
    v.set_scope(0);
    let r = v.verify_expression(&array_exp(1, 5, vec![Element::Expression(bool_exp(2, true, 6))]), &context(Some(Ty::Def(0)), VerifyMode::Read));
    assert!(matches!(r, Some(Entity::Value { ty: Ty::Def(0) })));
    assert!(has_error(&v, DiagnosticKind::ArrayLengthNotEqualsTupleLength, 5));
}

#[test]
fn array_literal_against_a_boolean_is_an_error() {
    let mut v = verifier_with(vec![]);
    let r = v.verify_expression(&array_exp(1, 5, vec![]), &context(Some(Ty::Boolean), VerifyMode::Read));
    assert!(matches!(r, Some(Entity::Value { ty: Ty::Boolean })));
    assert!(has_error(&v, DiagnosticKind::UnexpectedArray, 5));
}

#[test]
fn object_literal_against_a_boolean_is_an_error() {
    let mut v = verifier_with(vec![]);
    let e = Expression { id: 1, location: loc(5, 7), kind: ExpressionKind::ObjectInitializer { fields: vec![] } };
    let r = v.verify_expression(&e, &context(Some(Ty::Boolean), VerifyMode::Read));
    assert!(matches!(r, Some(Entity::Value { ty: Ty::Boolean })));
    assert!(has_error(&v, DiagnosticKind::UnexpectedObject, 5));
}

fn xml_with(attr_exp: Expression, content_exp: Expression) -> Expression {
    Expression {
        id: 70,
        location: loc(0, 40),
        kind: ExpressionKind::Xml {
            element: XmlElement {
                name: XmlTagName::Name("a".to_string()),
                attributes: vec![XmlAttribute { name: "b".to_string(), value: XmlAttributeValue::Expression(Box::new(attr_exp)) }],
                attribute_expression: None,
                content: Some(vec![
                    XmlContent::Characters("text".to_string()),
                    XmlContent::Element(XmlElement {
                        name: XmlTagName::Name("c".to_string()),
                        attributes: vec![],
                        attribute_expression: None,
                        content: Some(vec![XmlContent::Expression(Box::new(content_exp))]),
                        closing_name: Some(XmlTagName::Name("c".to_string())),
                    }),
                ]),
                closing_name: Some(XmlTagName::Name("a".to_string())),
            },
        },
    }
}

#[test]
fn xml_literal_verifies_its_embedded_expressions() {
    let mut v = verifier_with(vec![]);
    let e = xml_with(bool_exp(71, true, 8), name_exp(72, "missing", 25));
    let r = read(&mut v, &e);
    assert!(matches!(r, Some(Entity::Value { ty: Ty::Xml })));
    assert!(has_error(&v, DiagnosticKind::UndefinedProperty, 25));
    assert!(v.invalidated());
}

#[test]
fn xml_literal_with_valid_embedded_expressions_is_fine() {
    let mut v = verifier_with(vec![]);
    let e = xml_with(bool_exp(71, true, 8), num_exp(72, "1", 25));
    let r = v.verify_expression(&e, &context(Some(Ty::Any), VerifyMode::Read));
    assert!(matches!(r, Some(Entity::Value { ty: Ty::Any })));
    assert!(!v.invalidated());
}
