use mxmlc::ast::{Attribute, Block, Directive, DirectiveKind, Element, Expression, ExpressionKind, FunctionBody, FunctionCommon,
    FunctionNameKind, FunctionSignature, Location, NumberSuffix, PackageDefinition, Parameter, Program, QualifiedIdentifier,
    QualifiedIdentifierIdentifier, VariableBinding};
use mxmlc::diagnostics::DiagnosticKind;
use mxmlc::program_verifier::Verifier;
use mxmlc::semantics::{ConstantValue, Database, Entity, ParameterKind, Property, PropertyKind, Ty, TypeDef};
use mxmlc::subverifier::VerifierExpressionContext;

fn loc(first: usize, last: usize) -> Location {
    Location { first_offset: first, last_offset: last }
}

fn name_exp(id: u64, name: &str, first: usize) -> Expression {
    let l = loc(first, first + name.len());
    Expression {
        id,
        location: l,
        kind: ExpressionKind::QualifiedIdentifier(QualifiedIdentifier {
            location: l,
            attribute: false,
            qualifier: None,
            id: QualifiedIdentifierIdentifier::Id(name.to_string(), l),
        }),
    }
}

fn bool_exp(id: u64, value: bool, first: usize) -> Expression {
    Expression { id, location: loc(first, first + 4), kind: ExpressionKind::BooleanLiteral { value } }
}

fn num_exp(id: u64, value: &str, first: usize) -> Expression {
    Expression {
        id,
        location: loc(first, first + value.len()),
        kind: ExpressionKind::NumericLiteral { value: value.to_string(), suffix: NumberSuffix::Plain },
    }
}

fn binding(first: usize, pattern: Expression, annotation: Option<Expression>, init: Option<Expression>) -> VariableBinding {
    VariableBinding {
        location: loc(first, first + 1),
        pattern: Box::new(pattern),
        type_annotation: annotation.map(Box::new),
        initializer: init.map(Box::new),
    }
}

fn var_defn(id: u64, first: usize, is_const: bool, attributes: Vec<Attribute>, bindings: Vec<VariableBinding>) -> Directive {
    Directive { id, location: loc(first, first + 10), kind: DirectiveKind::VariableDefinition { is_const, attributes, bindings } }
}

fn param(first: usize, kind: ParameterKind, pattern: Expression, annotation: Option<Expression>, default: Option<Expression>) -> Parameter {
    Parameter {
        location: loc(first, first + 1),
        kind,
        pattern: Box::new(pattern),
        type_annotation: annotation.map(Box::new),
        default_value: default.map(Box::new),
    }
}

fn common(id: u64, first: usize, params: Vec<Parameter>, result: Option<Expression>, body: Vec<Directive>, is_async: bool) -> FunctionCommon {
    FunctionCommon {
        id,
        location: loc(first, first + 20),
        contains_await: is_async,
        contains_yield: false,
        signature: FunctionSignature { this_parameter: None, parameters: params, result_type: result.map(Box::new) },
        body: Some(FunctionBody::Block(Block { id: id + 1000, location: loc(first + 10, first + 20), directives: body })),
    }
}

fn fn_defn(id: u64, name: &str, first: usize, kind: FunctionNameKind, attributes: Vec<Attribute>, c: FunctionCommon) -> Directive {
    Directive {
        id,
        location: loc(first, first + 30),
        kind: DirectiveKind::FunctionDefinition {
            attributes,
            name: name.to_string(),
            name_location: loc(first, first + name.len()),
            name_kind: kind,
            common: c,
        },
    }
}

fn type_property(name: &str, ty: Ty) -> Property {
    Property { name: name.to_string(), kind: PropertyKind::Type { ty }, has_capture: false, location: None }
}

/// A database whose top-level package defines the types `Boolean`, `Number`,
/// `String` and `Array`.
fn host() -> Database {
    let mut db = Database::new();
    db.packages[0].properties.push(type_property("Boolean", Ty::Boolean));
    db.packages[0].properties.push(type_property("Number", Ty::Number));
    db.packages[0].properties.push(type_property("String", Ty::String));
    db.packages[0].properties.push(type_property("Array", Ty::Array));
    db
}

fn verify(db: Database, directives: Vec<Directive>) -> Verifier {
    let mut v = Verifier::new(db);
    v.verify_programs(&vec![Program { packages: vec![], directives }]);
    v
}

fn has_diagnostic(db: &Database, kind: DiagnosticKind, offset: usize) -> bool {
    db.diagnostics.iter().any(|d| d.kind == kind && d.location.first_offset == offset)
}

fn top_property<'a>(db: &'a Database, name: &str) -> Option<&'a Property> {
    db.scopes[0].properties.iter().find(|p| p.name == name)
}

fn variable_type(db: &Database, name: &str) -> Option<Ty> {
    match &top_property(db, name)?.kind {
        PropertyKind::Variable { static_type, .. } => Some(static_type.clone()),
        _ => None,
    }
}

#[test]
fn var_without_annotation_takes_initializer_type() {
    let v = verify(host(), vec![var_defn(1, 0, false, vec![], vec![binding(4, name_exp(2, "x", 4), None, Some(bool_exp(3, true, 8)))])]);
    assert!(variable_type(v.host(), "x").unwrap().same(&Ty::Boolean));
    assert!(!v.invalidated());
    assert!(v.host().diagnostics.is_empty());
}

#[test]
fn var_with_annotation_takes_annotated_type() {
    let v = verify(host(), vec![var_defn(1, 0, false, vec![], vec![
        binding(4, name_exp(2, "n", 4), Some(name_exp(3, "Number", 7)), None)])]);
    assert!(variable_type(v.host(), "n").unwrap().same(&Ty::Number));
    assert!(!v.invalidated());
    assert!(!has_diagnostic(v.host(), DiagnosticKind::VariableHasNoTypeAnnotation, 4));
}

#[test]
fn var_without_annotation_or_initializer_is_warned() {
    let v = verify(host(), vec![var_defn(1, 0, false, vec![], vec![binding(4, name_exp(2, "y", 4), None, None)])]);
    assert!(has_diagnostic(v.host(), DiagnosticKind::VariableHasNoTypeAnnotation, 4));
    assert!(variable_type(v.host(), "y").unwrap().same(&Ty::Any));
    assert!(!v.invalidated());
}

#[test]
fn const_without_initializer_is_an_error() {
    let v = verify(host(), vec![var_defn(1, 0, true, vec![], vec![
        binding(6, name_exp(2, "z", 6), Some(name_exp(3, "Number", 9)), None)])]);
    assert!(has_diagnostic(v.host(), DiagnosticKind::ConstantMustContainInitializer, 6));
    assert!(v.invalidated());
}

#[test]
fn embedded_const_needs_no_initializer() {
    let v = verify(host(), vec![var_defn(1, 0, true, vec![Attribute::Metadata("Embed".to_string())], vec![
        binding(6, name_exp(2, "z", 6), Some(name_exp(3, "Number", 9)), None)])]);
    assert!(!has_diagnostic(v.host(), DiagnosticKind::ConstantMustContainInitializer, 6));
    assert!(!v.invalidated());
}

#[test]
fn scope_constant_stays_a_reference() {
    let mut v = verify(host(), vec![var_defn(1, 0, true, vec![], vec![binding(6, name_exp(2, "k", 6), None, Some(bool_exp(3, true, 10)))])]);
    match &top_property(v.host(), "k").unwrap().kind {
        PropertyKind::Variable { read_only, constant, .. } => {
            assert!(*read_only);
            assert!(matches!(constant, Some(ConstantValue::Boolean(true))));
        },
        _ => panic!("expected a variable"),
    }
    v.set_scope(0);
    let r = v.verify_expression(&name_exp(50, "k", 30), &VerifierExpressionContext::default());
    assert!(matches!(r, Some(Entity::PropertyReference { .. })));
}

#[test]
fn package_constant_expands_to_its_value() {
    let mut db = host();
    db.packages[0].properties.push(Property { name: "K".to_string(), kind: PropertyKind::Variable {
        static_type: Ty::Boolean, read_only: true, write_only: false, constant: Some(ConstantValue::Boolean(true)) },
        has_capture: false, location: None });
    let mut v = Verifier::new(db);
    v.set_scope(0);
    let r = v.verify_expression(&name_exp(50, "K", 30), &VerifierExpressionContext::default());
    assert!(matches!(r, Some(Entity::BooleanConstant { value: true, .. })));
}

#[test]
fn duplicate_variables_conflict() {
    let v = verify(host(), vec![
        var_defn(1, 0, false, vec![], vec![binding(4, name_exp(2, "a", 4), None, Some(num_exp(3, "1", 8)))]),
        var_defn(10, 20, false, vec![], vec![binding(24, name_exp(11, "a", 24), None, Some(num_exp(12, "2", 28)))]),
    ]);
    assert!(has_diagnostic(v.host(), DiagnosticKind::AConflictExistsWithDefinition, 4));
    assert!(has_diagnostic(v.host(), DiagnosticKind::AConflictExistsWithDefinition, 24));
    assert!(v.invalidated());
}

#[test]
fn destructuring_in_a_package_is_an_error() {
    let pattern = Expression { id: 2, location: loc(40, 45), kind: ExpressionKind::ArrayLiteral { elements: vec![
        Element::Expression(name_exp(3, "p", 41)),
    ] } };
    let pkg = PackageDefinition {
        id: 100,
        name: vec!["com".to_string()],
        block: Block { id: 101, location: loc(30, 60), directives: vec![
            var_defn(1, 36, false, vec![], vec![binding(40, pattern, None, Some(num_exp(4, "1", 50)))]),
        ] },
    };
    let mut v = Verifier::new(host());
    v.verify_programs(&vec![Program { packages: vec![pkg], directives: vec![] }]);
    assert!(has_diagnostic(v.host(), DiagnosticKind::CannotUseDestructuringHere, 40));
    assert!(v.invalidated());
}

#[test]
fn external_variable_needs_a_constant_initializer() {
    let v = verify(host(), vec![
        var_defn(1, 0, false, vec![], vec![binding(4, name_exp(2, "a", 4), Some(name_exp(5, "Number", 6)), Some(num_exp(3, "1", 8)))]),
        var_defn(10, 20, false, vec![Attribute::Metadata("Flex::External".to_string())], vec![
            binding(24, name_exp(11, "b", 24), None, Some(name_exp(12, "a", 28)))]),
    ]);
    assert!(has_diagnostic(v.host(), DiagnosticKind::EntityIsNotAConstant, 28));
    assert!(v.invalidated());
}

#[test]
fn function_definition_defines_a_method() {
    let c = common(20, 0, vec![
        param(11, ParameterKind::Required, name_exp(21, "a", 11), Some(name_exp(22, "Number", 13)), None),
        param(21, ParameterKind::Optional, name_exp(23, "b", 21), None, Some(num_exp(24, "1", 25))),
    ], Some(Expression { id: 25, location: loc(30, 34), kind: ExpressionKind::VoidType }), vec![], false);
    let v = verify(host(), vec![fn_defn(1, "f", 9, FunctionNameKind::Identifier, vec![], c)]);
    assert!(!v.invalidated());
    let db = v.host();
    let sig = match &top_property(db, "f").unwrap().kind {
        PropertyKind::Method { signature, .. } => signature.clone(),
        _ => panic!("expected a method"),
    };
    match sig {
        Ty::Def(i) => match &db.types[i] {
            TypeDef::Function(ps, result) => {
                assert_eq!(ps.len(), 2);
                assert!(ps[0].kind == ParameterKind::Required && ps[0].static_type.same(&Ty::Number));
                assert!(ps[1].kind == ParameterKind::Optional && ps[1].static_type.same(&Ty::Any));
                assert!(result.same(&Ty::Void));
            },
            _ => panic!("expected a function type"),
        },
        _ => panic!("expected a type of the table"),
    }
}

#[test]
fn function_without_result_type_is_warned() {
    let c = common(20, 0, vec![], None, vec![], false);
    let v = verify(host(), vec![fn_defn(1, "g", 9, FunctionNameKind::Identifier, vec![], c)]);
    assert!(has_diagnostic(v.host(), DiagnosticKind::ReturnValueHasNoTypeDeclaration, 9));
    assert!(!v.invalidated());
}

#[test]
fn rest_parameter_must_be_an_array() {
    let c = common(20, 0, vec![
        param(11, ParameterKind::Rest, name_exp(21, "r", 14), Some(name_exp(22, "Number", 16)), None),
    ], Some(Expression { id: 25, location: loc(30, 34), kind: ExpressionKind::VoidType }), vec![], false);
    let v = verify(host(), vec![fn_defn(1, "h", 9, FunctionNameKind::Identifier, vec![], c)]);
    assert!(has_diagnostic(v.host(), DiagnosticKind::RestParameterMustBeArray, 16));
    assert!(v.invalidated());
}

#[test]
fn async_function_must_return_a_promise() {
    let c = common(20, 0, vec![], Some(name_exp(25, "Number", 30)), vec![], true);
    let v = verify(host(), vec![fn_defn(1, "p", 9, FunctionNameKind::Identifier, vec![], c)]);
    assert!(has_diagnostic(v.host(), DiagnosticKind::ReturnTypeDeclarationMustBePromise, 9));
    assert!(v.invalidated());
}

#[test]
fn duplicate_functions_conflict() {
    let c1 = common(20, 0, vec![], Some(Expression { id: 25, location: loc(30, 34), kind: ExpressionKind::VoidType }), vec![], false);
    let c2 = common(40, 50, vec![], Some(Expression { id: 45, location: loc(70, 74), kind: ExpressionKind::VoidType }), vec![], false);
    let v = verify(host(), vec![
        fn_defn(1, "f", 9, FunctionNameKind::Identifier, vec![], c1),
        fn_defn(2, "f", 59, FunctionNameKind::Identifier, vec![], c2),
    ]);
    assert!(has_diagnostic(v.host(), DiagnosticKind::DuplicateFunctionDefinition, 9));
    assert!(has_diagnostic(v.host(), DiagnosticKind::DuplicateFunctionDefinition, 59));
    assert!(v.invalidated());
}

#[test]
fn function_body_variables_are_local() {
    let body = vec![var_defn(30, 60, false, vec![], vec![binding(64, name_exp(31, "t", 64), None, Some(bool_exp(32, false, 68)))])];
    let c = common(20, 0, vec![], Some(Expression { id: 25, location: loc(30, 34), kind: ExpressionKind::VoidType }), body, false);
    let v = verify(host(), vec![fn_defn(1, "f", 9, FunctionNameKind::Identifier, vec![], c)]);
    assert!(!v.invalidated());
    assert!(top_property(v.host(), "t").is_none());
    let local = v.host().scopes.iter().any(|s| s.properties.iter().any(|p| p.name == "t"));
    assert!(local);
}

#[test]
fn getter_and_setter_share_a_property() {
    let g = common(20, 0, vec![], Some(name_exp(25, "Boolean", 30)), vec![], false);
    let s = common(40, 50, vec![param(61, ParameterKind::Required, name_exp(41, "v", 61), Some(name_exp(42, "Boolean", 63)), None)],
        Some(Expression { id: 45, location: loc(72, 76), kind: ExpressionKind::VoidType }), vec![], false);
    let v = verify(host(), vec![
        fn_defn(1, "x", 9, FunctionNameKind::Getter, vec![], g),
        fn_defn(2, "x", 59, FunctionNameKind::Setter, vec![], s),
    ]);
    assert!(!v.invalidated());
    match &top_property(v.host(), "x").unwrap().kind {
        PropertyKind::Virtual { static_type, getter, setter } => {
            assert!(static_type.same(&Ty::Boolean));
            assert!(getter.is_some() && setter.is_some());
        },
        _ => panic!("expected a property of getters and setters"),
    }
}

#[test]
fn getter_takes_no_parameters() {
    let g = common(20, 0, vec![param(11, ParameterKind::Required, name_exp(21, "a", 11), None, None)],
        Some(name_exp(25, "Boolean", 30)), vec![], false);
    let v = verify(host(), vec![fn_defn(1, "x", 9, FunctionNameKind::Getter, vec![], g)]);
    assert!(has_diagnostic(v.host(), DiagnosticKind::GetterMustTakeNoParameters, 9));
}

#[test]
fn setter_takes_one_parameter() {
    let s = common(40, 50, vec![], Some(Expression { id: 45, location: loc(72, 76), kind: ExpressionKind::VoidType }), vec![], false);
    let v = verify(host(), vec![fn_defn(2, "x", 59, FunctionNameKind::Setter, vec![], s)]);
    assert!(has_diagnostic(v.host(), DiagnosticKind::SetterMustTakeOneParameter, 59));
    assert!(v.invalidated());
}

#[test]
fn setter_returns_void() {
    let s = common(40, 50, vec![param(61, ParameterKind::Required, name_exp(41, "v", 61), Some(name_exp(42, "Boolean", 63)), None)],
        Some(name_exp(45, "Boolean", 72)), vec![], false);
    let v = verify(host(), vec![fn_defn(2, "x", 59, FunctionNameKind::Setter, vec![], s)]);
    assert!(has_diagnostic(v.host(), DiagnosticKind::SetterMustReturnVoid, 59));
    assert!(!has_diagnostic(v.host(), DiagnosticKind::SetterMustTakeOneParameter, 59));
    assert!(v.invalidated());
}

#[test]
fn one_error_per_offset() {
    let s = common(40, 50, vec![], Some(name_exp(45, "Boolean", 72)), vec![], false);
    let v = verify(host(), vec![fn_defn(2, "x", 59, FunctionNameKind::Setter, vec![], s)]);
    let at_59 = v.host().diagnostics.iter().filter(|d| !d.is_warning && d.location.first_offset == 59).count();
    assert_eq!(at_59, 1);
    assert!(has_diagnostic(v.host(), DiagnosticKind::SetterMustTakeOneParameter, 59));
}

#[test]
fn setter_must_take_the_getter_type() {
    let g = common(20, 0, vec![], Some(name_exp(25, "Boolean", 30)), vec![], false);
    let s = common(40, 50, vec![param(61, ParameterKind::Required, name_exp(41, "v", 61), Some(name_exp(42, "Number", 63)), None)],
        Some(Expression { id: 45, location: loc(72, 76), kind: ExpressionKind::VoidType }), vec![], false);
    let v = verify(host(), vec![
        fn_defn(1, "x", 9, FunctionNameKind::Getter, vec![], g),
        fn_defn(2, "x", 59, FunctionNameKind::Setter, vec![], s),
    ]);
    assert!(has_diagnostic(v.host(), DiagnosticKind::SetterMustTakeDataType, 59));
    assert!(v.invalidated());
}

#[test]
fn override_must_override_something() {
    let c = common(20, 0, vec![], Some(Expression { id: 25, location: loc(30, 34), kind: ExpressionKind::VoidType }), vec![], false);
    let v = verify(host(), vec![fn_defn(1, "f", 9, FunctionNameKind::Identifier, vec![Attribute::Override(loc(0, 8))], c)]);
    assert!(has_diagnostic(v.host(), DiagnosticKind::MustOverrideAMethod, 9));
    assert!(v.invalidated());
}

#[test]
fn overriding_getter_must_override_something() {
    let g = common(20, 0, vec![], Some(name_exp(25, "Boolean", 30)), vec![], false);
    let v = verify(host(), vec![fn_defn(1, "x", 9, FunctionNameKind::Getter, vec![Attribute::Override(loc(0, 8))], g)]);
    assert!(has_diagnostic(v.host(), DiagnosticKind::MustOverrideAMethod, 9));
    assert!(v.invalidated());
}

#[test]
fn external_function_must_be_native_or_abstract() {
    let c = common(20, 0, vec![], Some(Expression { id: 25, location: loc(30, 34), kind: ExpressionKind::VoidType }), vec![], false);
    let v = verify(host(), vec![fn_defn(1, "f", 9, FunctionNameKind::Identifier,
        vec![Attribute::Metadata("Flex::External".to_string())], c)]);
    assert!(has_diagnostic(v.host(), DiagnosticKind::ExternalFunctionMustBeNativeOrAbstract, 9));
    let c = common(40, 50, vec![], Some(Expression { id: 45, location: loc(70, 74), kind: ExpressionKind::VoidType }), vec![], false);
    let v = verify(host(), vec![fn_defn(2, "g", 59, FunctionNameKind::Identifier,
        vec![Attribute::Metadata("Flex::External".to_string()), Attribute::Native(loc(50, 56))], c)]);
    assert!(!has_diagnostic(v.host(), DiagnosticKind::ExternalFunctionMustBeNativeOrAbstract, 59));
}

#[test]
fn named_lambda_declares_its_name() {
    let c = common(20, 0, vec![], Some(Expression { id: 25, location: loc(30, 34), kind: ExpressionKind::VoidType }), vec![], false);
    let exp = Expression { id: 1, location: loc(0, 80),
        kind: ExpressionKind::Function { name: Some(("g".to_string(), loc(9, 10))), common: c } };
    let mut v = Verifier::new(host());
    v.set_scope(0);
    let r = v.verify_expression(&exp, &VerifierExpressionContext::default());
    match r {
        Some(Entity::LambdaObject { activation, signature }) => {
            assert!(v.host().scopes[activation].properties.iter().any(|p| p.name == "g"));
            assert!(signature.is_some());
        },
        _ => panic!("expected a lambda object"),
    }
    assert!(!v.invalidated());
}

#[test]
fn lambda_gives_a_lambda_object() {
    let body = vec![var_defn(30, 60, false, vec![], vec![binding(64, name_exp(31, "t", 64), None, Some(bool_exp(32, false, 68)))])];
    let c = common(20, 0, vec![param(11, ParameterKind::Required, name_exp(21, "a", 11), None, None)],
        Some(Expression { id: 25, location: loc(30, 34), kind: ExpressionKind::VoidType }), body, false);
    let exp = Expression { id: 1, location: loc(0, 80), kind: ExpressionKind::Function { name: None, common: c } };
    let mut v = Verifier::new(host());
    v.set_scope(0);
    let r = v.verify_expression(&exp, &VerifierExpressionContext::default());
    let (activation, signature) = match r {
        Some(Entity::LambdaObject { activation, signature }) => (activation, signature),
        _ => panic!("expected a lambda object"),
    };
    assert!(!v.invalidated());
    let db = v.host();
    assert!(db.scopes[activation].properties.iter().any(|p| p.name == "a"));
    match signature {
        Some(Ty::Def(i)) => match &db.types[i] {
            TypeDef::Function(ps, result) => {
                assert_eq!(ps.len(), 1);
                assert!(result.same(&Ty::Void));
            },
            _ => panic!("expected a function type"),
        },
        _ => panic!("expected a signature"),
    }
    let local = db.scopes.iter().any(|s| s.properties.iter().any(|p| p.name == "t"));
    assert!(local);
}
