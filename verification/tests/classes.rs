use mxmlc::ast::{Attribute, Block, Directive, DirectiveKind, Expression, ExpressionKind, FunctionBody, FunctionCommon,
    FunctionNameKind, FunctionSignature, Location};
use mxmlc::diagnostics::DiagnosticKind;
use mxmlc::directive::DirectiveSubverifier;
use mxmlc::semantics::{ClassDef, Database, FunctionParam, ParameterKind, Property, PropertyKind, Scope, ScopeKind, Ty, TypeDef};
use mxmlc::subverifier::Subverifier;

fn loc(first: usize, last: usize) -> Location {
    Location { first_offset: first, last_offset: last }
}

fn void_exp(id: u64, first: usize) -> Expression {
    Expression { id, location: loc(first, first + 4), kind: ExpressionKind::VoidType }
}

fn common(id: u64, first: usize, body: Vec<Directive>) -> FunctionCommon {
    FunctionCommon {
        id,
        location: loc(first, first + 20),
        contains_await: false,
        contains_yield: false,
        signature: FunctionSignature { this_parameter: None, parameters: vec![], result_type: Some(Box::new(void_exp(id + 500, first + 5))) },
        body: Some(FunctionBody::Block(Block { id: id + 1000, location: loc(first + 10, first + 20), directives: body })),
    }
}

fn fn_defn(id: u64, name: &str, first: usize, kind: FunctionNameKind, attributes: Vec<Attribute>, c: FunctionCommon) -> Directive {
    Directive {
        id,
        location: loc(first, first + 30),
        kind: DirectiveKind::FunctionDefinition {
            attributes,
            name: name.to_string(),
            name_location: loc(first, first + name.len()),
            name_kind: kind,
            common: c,
        },
    }
}

fn class(name: &str, extends: Option<Ty>, constructor: Option<Ty>, prototype: Vec<Property>) -> TypeDef {
    TypeDef::Class(ClassDef {
        name: name.to_string(),
        is_static: false,
        is_abstract: false,
        extends,
        type_param_count: 0,
        constructor,
        is_options_class: false,
        static_properties: vec![],
        prototype,
    })
}

fn method(name: &str, is_final: bool) -> Property {
    Property { name: name.to_string(), kind: PropertyKind::Method { signature: Ty::Def(3), is_final }, has_capture: false, location: None }
}

/// A database with a base class (type 1) whose constructor takes a required
/// argument and that has a method `m` and a final method `fm` taking nothing
/// and returning `void` (type 3), and a class (type 2) extending it whose
/// scope is scope 1. `ctor` says whether the class already has a constructor.
fn host(ctor: bool) -> Database {
    let mut db = Database::new();
    db.types.push(TypeDef::Function(vec![FunctionParam { kind: ParameterKind::Required, static_type: Ty::Any }], Ty::Void));
    db.types.push(class("Base", None, Some(Ty::Def(0)), vec![method("m", false), method("fm", true)]));
    db.types.push(class("C", Some(Ty::Def(1)), if ctor { Some(Ty::Def(0)) } else { None }, vec![]));
    db.types.push(TypeDef::Function(vec![], Ty::Void));
    db.scopes.push(Scope { kind: ScopeKind::Class { ty: Ty::Def(2) }, parent: Some(0), properties: vec![], imports: vec![] });
    db
}

fn subverifier(db: Database) -> Subverifier {
    let mut v = Subverifier::new(db);
    v.scope = Some(1);
    v
}

/// Verifies the directives in the class scope until they finish.
fn verify_in_class(db: Database, directives: Vec<Directive>) -> Subverifier {
    let mut v = subverifier(db);
    for _ in 0..16 {
        if DirectiveSubverifier::verify_directives(&mut v, &directives).is_ok() {
            break;
        }
    }
    v
}

fn has_diagnostic(v: &Subverifier, kind: DiagnosticKind, offset: usize) -> bool {
    v.host.diagnostics.iter().any(|d| d.kind == kind && d.location.first_offset == offset)
}

#[test]
fn constructor_must_call_the_base_constructor() {
    let v = verify_in_class(host(false), vec![fn_defn(1, "C", 10, FunctionNameKind::Constructor, vec![], common(20, 10, vec![]))]);
    assert!(has_diagnostic(&v, DiagnosticKind::ConstructorMustContainSuperStatement, 10));
    assert!(v.invalidated);
}

#[test]
fn constructor_calling_the_base_constructor() {
    let sup = Directive { id: 30, location: loc(25, 32), kind: DirectiveKind::SuperStatement { arguments: vec![] } };
    let v = verify_in_class(host(false), vec![fn_defn(1, "C", 10, FunctionNameKind::Constructor, vec![], common(20, 10, vec![sup]))]);
    assert!(!has_diagnostic(&v, DiagnosticKind::ConstructorMustContainSuperStatement, 10));
    assert!(!v.invalidated);
    assert!(v.host.scopes[1].properties.iter().any(|p| p.name == "C"));
}

#[test]
fn constructor_is_defined_once() {
    let v = verify_in_class(host(true), vec![fn_defn(1, "C", 10, FunctionNameKind::Constructor, vec![], common(20, 10, vec![]))]);
    assert!(has_diagnostic(&v, DiagnosticKind::RedefiningConstructor, 10));
    let v = verify_in_class(host(false), vec![
        fn_defn(1, "C", 10, FunctionNameKind::Constructor, vec![], common(20, 10, vec![])),
        fn_defn(2, "C", 60, FunctionNameKind::Constructor, vec![], common(40, 60, vec![])),
    ]);
    assert!(has_diagnostic(&v, DiagnosticKind::RedefiningConstructor, 60));
}

#[test]
fn method_must_not_shadow_an_inherited_one() {
    let v = verify_in_class(host(false), vec![fn_defn(1, "m", 10, FunctionNameKind::Identifier, vec![], common(20, 10, vec![]))]);
    assert!(has_diagnostic(&v, DiagnosticKind::ShadowingDefinitionInBaseClass, 10));
    assert!(v.invalidated);
}

#[test]
fn overriding_method_may_redefine_an_inherited_one() {
    let v = verify_in_class(host(false), vec![fn_defn(1, "m", 10, FunctionNameKind::Identifier,
        vec![Attribute::Override(loc(0, 8))], common(20, 10, vec![]))]);
    assert!(!has_diagnostic(&v, DiagnosticKind::ShadowingDefinitionInBaseClass, 10));
    assert!(!has_diagnostic(&v, DiagnosticKind::MustOverrideAMethod, 10));
    assert!(!v.invalidated);
}

#[test]
fn static_method_does_not_shadow() {
    let v = verify_in_class(host(false), vec![fn_defn(1, "m", 10, FunctionNameKind::Identifier,
        vec![Attribute::Static(loc(0, 6))], common(20, 10, vec![]))]);
    assert!(!has_diagnostic(&v, DiagnosticKind::ShadowingDefinitionInBaseClass, 10));
}

#[test]
fn private_method_outside_a_class_is_an_error() {
    let mut v = subverifier(host(false));
    v.scope = Some(0);
    let d = vec![fn_defn(1, "f", 10, FunctionNameKind::Identifier, vec![Attribute::Private(loc(0, 7))], common(20, 10, vec![]))];
    for _ in 0..8 {
        if DirectiveSubverifier::verify_directives(&mut v, &d).is_ok() {
            break;
        }
    }
    assert!(has_diagnostic(&v, DiagnosticKind::AccessControlNamespaceNotAllowedHere, 0));
    assert!(!v.host.scopes[0].properties.iter().any(|p| p.name == "f"));
}

#[test]
fn final_method_must_not_be_overridden() {
    let v = verify_in_class(host(false), vec![fn_defn(1, "fm", 10, FunctionNameKind::Identifier,
        vec![Attribute::Override(loc(0, 8))], common(20, 10, vec![]))]);
    assert!(has_diagnostic(&v, DiagnosticKind::OverridingFinalMethod, 10));
    assert!(v.invalidated);
}

#[test]
fn overriding_method_must_keep_the_signature() {
    let mut c = common(20, 10, vec![]);
    c.signature.result_type = Some(Box::new(Expression { id: 520, location: loc(15, 16), kind: ExpressionKind::AnyType }));
    let v = verify_in_class(host(false), vec![fn_defn(1, "m", 10, FunctionNameKind::Identifier,
        vec![Attribute::Override(loc(0, 8))], c)]);
    assert!(has_diagnostic(&v, DiagnosticKind::IncompatibleOverride, 10));
    assert!(v.invalidated);
}

#[test]
fn final_attribute_makes_a_final_method() {
    let v = verify_in_class(host(false), vec![fn_defn(1, "g", 10, FunctionNameKind::Identifier,
        vec![Attribute::Final(loc(0, 5))], common(20, 10, vec![]))]);
    let p = v.host.scopes[1].properties.iter().find(|p| p.name == "g").unwrap();
    assert!(matches!(p.kind, PropertyKind::Method { is_final: true, .. }));
}
