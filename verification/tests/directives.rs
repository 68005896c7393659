use mxmlc::ast::{Block, Directive, DirectiveKind, Expression, ExpressionKind, ImportSpecifier, Location, QualifiedIdentifier,
    QualifiedIdentifierIdentifier, ReservedNamespace, VariableBinding, Program};
use mxmlc::diagnostics::DiagnosticKind;
use mxmlc::directive::DirectiveSubverifier;
use mxmlc::program_verifier::Verifier;
use mxmlc::semantics::{Database, Property, PropertyKind, Ty};
use mxmlc::subverifier::{Subverifier, VerifierPhase};

fn loc(first: usize, last: usize) -> Location {
    Location { first_offset: first, last_offset: last }
}

fn name_exp(id: u64, name: &str, first: usize) -> Expression {
    let l = loc(first, first + name.len());
    Expression {
        id,
        location: l,
        kind: ExpressionKind::QualifiedIdentifier(QualifiedIdentifier {
            location: l,
            attribute: false,
            qualifier: None,
            id: QualifiedIdentifierIdentifier::Id(name.to_string(), l),
        }),
    }
}

fn bool_exp(id: u64, value: bool, first: usize) -> Expression {
    Expression { id, location: loc(first, first + 4), kind: ExpressionKind::BooleanLiteral { value } }
}

fn var_defn(id: u64, name: &str, first: usize) -> Directive {
    Directive {
        id,
        location: loc(first, first + 15),
        kind: DirectiveKind::VariableDefinition {
            is_const: false,
            attributes: vec![],
            bindings: vec![VariableBinding {
                location: loc(first + 4, first + 5),
                pattern: Box::new(name_exp(id + 1, name, first + 4)),
                type_annotation: None,
                initializer: Some(Box::new(bool_exp(id + 2, true, first + 8))),
            }],
        },
    }
}

fn import(id: u64, package: &[&str], first: usize, specifier: ImportSpecifier) -> Directive {
    Directive {
        id,
        location: loc(first, first + 20),
        kind: DirectiveKind::Import {
            package_name: package.iter().map(|s| s.to_string()).collect(),
            package_location: loc(first + 7, first + 10),
            specifier,
            alias: None,
        },
    }
}

fn import_alias(id: u64, alias: &str, package: &[&str], first: usize, name: &str) -> Directive {
    Directive {
        id,
        location: loc(first, first + 20),
        kind: DirectiveKind::Import {
            package_name: package.iter().map(|s| s.to_string()).collect(),
            package_location: loc(first + 11, first + 14),
            specifier: ImportSpecifier::Identifier(name.to_string(), loc(first + 15, first + 16)),
            alias: Some((alias.to_string(), loc(first + 7, first + 8))),
        },
    }
}

fn concat(id: u64, package: &[&str], first: usize, specifier: ImportSpecifier) -> Directive {
    Directive {
        id,
        location: loc(first, first + 20),
        kind: DirectiveKind::PackageConcat {
            package_name: package.iter().map(|s| s.to_string()).collect(),
            package_location: loc(first + 2, first + 5),
            specifier,
        },
    }
}

fn verify(db: Database, directives: Vec<Directive>) -> Verifier {
    let mut v = Verifier::new(db);
    v.verify_programs(&vec![Program { packages: vec![], directives }]);
    v
}

fn has_diagnostic(v: &Verifier, kind: DiagnosticKind, offset: usize) -> bool {
    v.host().diagnostics.iter().any(|d| d.kind == kind && d.location.first_offset == offset)
}

fn defined_at_top(v: &Verifier, name: &str) -> bool {
    v.host().scopes[0].properties.iter().any(|p| p.name == name)
}

fn subverifier(db: Database) -> Subverifier {
    let mut v = Subverifier::new(db);
    v.scope = Some(0);
    v
}

#[test]
fn import_of_an_undefined_property_is_an_error() {
    let mut db = Database::new();
    db.package_or_create(&vec!["p".to_string(), "q".to_string()]);
    let v = verify(db, vec![import(1, &["p", "q"], 0, ImportSpecifier::Identifier("x".to_string(), loc(11, 12)))]);
    assert!(has_diagnostic(&v, DiagnosticKind::ImportOfUndefined, 7));
    assert!(v.invalidated());
}

#[test]
fn import_of_a_defined_property() {
    let mut db = Database::new();
    let p = db.package_or_create(&vec!["p".to_string()]);
    db.packages[p].properties.push(Property { name: "x".to_string(), kind: PropertyKind::Type { ty: Ty::Boolean },
        has_capture: false, location: None });
    let v = verify(db, vec![import(1, &["p"], 0, ImportSpecifier::Identifier("x".to_string(), loc(11, 12)))]);
    assert!(!v.invalidated());
    assert!(v.host().scopes[0].imports.len() == 2);
}

#[test]
fn wildcard_import_of_an_empty_package_is_warned() {
    let v = verify(Database::new(), vec![import(1, &["empty"], 0, ImportSpecifier::Wildcard)]);
    assert!(has_diagnostic(&v, DiagnosticKind::EmptyPackage, 7));
    assert!(v.host().diagnostics.iter().all(|d| d.kind != DiagnosticKind::EmptyPackage || d.is_warning));
    assert!(!v.invalidated());
}

#[test]
fn recursive_import_of_an_empty_package_tree_is_warned() {
    let mut db = Database::new();
    db.package_or_create(&vec!["p".to_string(), "q".to_string()]);
    let v = verify(db, vec![import(1, &["p"], 0, ImportSpecifier::Recursive)]);
    assert!(has_diagnostic(&v, DiagnosticKind::EmptyPackage, 7));
}

#[test]
fn recursive_import_reaches_subpackages() {
    let mut db = Database::new();
    let q = db.package_or_create(&vec!["p".to_string(), "q".to_string()]);
    db.packages[q].properties.push(Property { name: "x".to_string(), kind: PropertyKind::Type { ty: Ty::Boolean },
        has_capture: false, location: None });
    let v = verify(db, vec![import(1, &["p"], 0, ImportSpecifier::Recursive)]);
    assert!(!has_diagnostic(&v, DiagnosticKind::EmptyPackage, 7));
    assert!(!v.invalidated());
}

#[test]
fn use_namespace_needs_a_namespace() {
    let bad = Directive { id: 1, location: loc(0, 20), kind: DirectiveKind::UseNamespace { expression: Box::new(bool_exp(2, true, 14)) } };
    let v = verify(Database::new(), vec![bad]);
    assert!(has_diagnostic(&v, DiagnosticKind::NotANamespaceConstant, 14));
    let good = Directive { id: 1, location: loc(0, 20), kind: DirectiveKind::UseNamespace {
        expression: Box::new(Expression { id: 2, location: loc(14, 20), kind: ExpressionKind::ReservedNamespace { namespace: ReservedNamespace::Public } }),
    } };
    let v = verify(Database::new(), vec![good]);
    assert!(!v.invalidated());
}

fn config(id: u64, constant: &str, inner: Vec<Directive>) -> Directive {
    Directive {
        id,
        location: loc(0, 40),
        kind: DirectiveKind::Configuration {
            namespace: "CONFIG".to_string(),
            constant_name: constant.to_string(),
            name_location: loc(0, 13),
            directive: Box::new(Directive { id: id + 1, location: loc(14, 40), kind: DirectiveKind::Block {
                block: Block { id: id + 2, location: loc(14, 40), directives: inner },
            } }),
        },
    }
}

#[test]
fn enabled_configuration_directive_is_verified() {
    let mut db = Database::new();
    db.set_config_constant("CONFIG::debug".to_string(), "true".to_string());
    let v = verify(db, vec![config(1, "debug", vec![var_defn(10, "d", 16)])]);
    assert!(defined_at_top(&v, "d"));
    assert!(!v.invalidated());
}

#[test]
fn disabled_configuration_directive_is_skipped() {
    let mut db = Database::new();
    db.set_config_constant("CONFIG::debug".to_string(), "false".to_string());
    let v = verify(db, vec![config(1, "debug", vec![var_defn(10, "d", 16)])]);
    assert!(!defined_at_top(&v, "d"));
    assert!(!v.host().node_mapping.contains_key(&11));
    assert!(!v.invalidated());
}

#[test]
fn configuration_constant_must_be_a_boolean() {
    let mut db = Database::new();
    db.set_config_constant("CONFIG::level".to_string(), "10".to_string());
    let v = verify(db, vec![config(1, "level", vec![])]);
    assert!(has_diagnostic(&v, DiagnosticKind::NotABooleanConstant, 0));
    let v = verify(Database::new(), vec![config(1, "missing", vec![])]);
    assert!(has_diagnostic(&v, DiagnosticKind::CannotResolveConfigConstant, 0));
}

#[test]
fn block_has_a_scope_of_its_own() {
    let blk = Directive { id: 1, location: loc(0, 30), kind: DirectiveKind::Block {
        block: Block { id: 2, location: loc(0, 30), directives: vec![var_defn(10, "inner", 2)] },
    } };
    let v = verify(Database::new(), vec![blk]);
    assert!(!defined_at_top(&v, "inner"));
    assert!(v.host().scopes.iter().any(|s| s.properties.iter().any(|p| p.name == "inner")));
}

#[test]
fn finished_directive_is_left_as_it_is() {
    let mut v = subverifier(Database::new());
    let d = var_defn(10, "x", 0);
    let mut rounds = 0;
    while DirectiveSubverifier::verify_directive(&mut v, &d).is_err() {
        rounds += 1;
        assert!(rounds < 10);
    }
    assert_eq!(rounds, 4);
    assert_eq!(v.phase_of_drtv.get(&10), Some(&VerifierPhase::Finished));
    let before = v.host.diagnostics.len();
    let properties = v.host.scopes[0].properties.len();
    assert!(DirectiveSubverifier::verify_directive(&mut v, &d).is_ok());
    assert_eq!(v.host.diagnostics.len(), before);
    assert_eq!(v.host.scopes[0].properties.len(), properties);
}

fn package_with_type(db: &mut Database, name: &str, property: &str) -> usize {
    let p = db.package_or_create(&vec![name.to_string()]);
    db.packages[p].properties.push(Property { name: property.to_string(), kind: PropertyKind::Type { ty: Ty::Boolean },
        has_capture: false, location: None });
    p
}

#[test]
fn import_alias_stands_for_the_property() {
    let mut db = Database::new();
    package_with_type(&mut db, "p", "x");
    let v = verify(db, vec![import_alias(1, "A", &["p"], 0, "x")]);
    assert!(!v.invalidated());
    match &v.host().scopes[0].properties.iter().find(|p| p.name == "A").unwrap().kind {
        PropertyKind::Type { ty } => assert!(ty.same(&Ty::Boolean)),
        _ => panic!("expected the aliased type"),
    }
}

#[test]
fn import_alias_of_an_undefined_property_is_an_error() {
    let mut db = Database::new();
    package_with_type(&mut db, "p", "x");
    let v = verify(db, vec![import_alias(1, "A", &["p"], 0, "y")]);
    assert!(has_diagnostic(&v, DiagnosticKind::ImportOfUndefined, 11));
    assert!(v.invalidated());
}

#[test]
fn import_alias_conflicts_with_a_definition() {
    let v = verify(Database::new(), vec![var_defn(10, "A", 30), import_alias(1, "A", &["p"], 0, "x")]);
    assert!(has_diagnostic(&v, DiagnosticKind::AConflictExistsWithDefinition, 34));
    assert!(has_diagnostic(&v, DiagnosticKind::AConflictExistsWithDefinition, 7));
}

fn in_package(name: &str, directives: Vec<Directive>) -> mxmlc::ast::PackageDefinition {
    mxmlc::ast::PackageDefinition { id: 500, name: vec![name.to_string()], block: Block { id: 501, location: loc(100, 200), directives } }
}

#[test]
fn package_concatenation_joins_a_package() {
    let mut db = Database::new();
    let q = package_with_type(&mut db, "q", "x");
    let mut v = Verifier::new(db);
    v.verify_programs(&vec![Program { packages: vec![in_package("out", vec![concat(1, &["q"], 110, ImportSpecifier::Wildcard)])], directives: vec![] }]);
    assert!(!v.invalidated());
    let out = v.host().packages.iter().position(|p| p.name == vec!["out".to_string()]).unwrap();
    assert_eq!(v.host().packages[out].concats, vec![q]);
}

#[test]
fn concatenating_an_empty_package_is_warned() {
    let mut v = Verifier::new(Database::new());
    v.verify_programs(&vec![Program { packages: vec![in_package("out", vec![concat(1, &["none"], 110, ImportSpecifier::Wildcard)])], directives: vec![] }]);
    assert!(has_diagnostic(&v, DiagnosticKind::EmptyPackage, 112));
}

#[test]
fn concatenating_an_enclosing_package_is_an_error() {
    let mut v = Verifier::new(Database::new());
    v.verify_programs(&vec![Program { packages: vec![in_package("out", vec![concat(1, &["out"], 110, ImportSpecifier::Recursive)])], directives: vec![] }]);
    assert!(has_diagnostic(&v, DiagnosticKind::ConcatenatingSelfReferentialPackage, 112));
}

#[test]
fn package_concatenation_of_a_property_defines_an_alias() {
    let mut db = Database::new();
    package_with_type(&mut db, "q", "x");
    let mut v = Verifier::new(db);
    let name_loc = ImportSpecifier::Identifier("x".to_string(), loc(116, 117));
    v.verify_programs(&vec![Program { packages: vec![in_package("out", vec![concat(1, &["q"], 110, name_loc)])], directives: vec![] }]);
    assert!(!v.invalidated());
    assert!(v.host().scopes.iter().any(|s| s.properties.iter().any(|p| p.name == "x" && matches!(p.kind, PropertyKind::Type { .. }))));
}

#[test]
fn configuration_conditional_selects_a_branch() {
    let blk = |id: u64, inner: Vec<Directive>| Directive { id, location: loc(0, 10), kind: DirectiveKind::Block { block: Block { id: id + 1, location: loc(0, 10), directives: inner } } };
    let cond = Directive { id: 1, location: loc(0, 50), kind: DirectiveKind::If {
        test: Box::new(bool_exp(2, false, 4)),
        consequent: Box::new(blk(10, vec![var_defn(20, "yes", 12)])),
        alternative: Some(Box::new(blk(30, vec![var_defn(40, "no", 32)]))),
    } };
    let mut v = subverifier(Database::new());
    for _ in 0..8 {
        if DirectiveSubverifier::verify_config_subdirective(&mut v, &cond).is_ok() {
            break;
        }
    }
    assert!(v.host.scopes[0].properties.iter().any(|p| p.name == "no"));
    assert!(!v.host.scopes[0].properties.iter().any(|p| p.name == "yes"));
    let bad = Directive { id: 50, location: loc(0, 50), kind: DirectiveKind::If {
        test: Box::new(Expression { id: 51, location: loc(60, 61), kind: ExpressionKind::NullLiteral }),
        consequent: Box::new(blk(52, vec![])),
        alternative: None,
    } };
    let _ = DirectiveSubverifier::verify_config_subdirective(&mut v, &bad);
    assert!(v.host.diagnostics.iter().any(|d| d.kind == DiagnosticKind::NotABooleanConstant && d.location.first_offset == 60));
}
