//! Verification of function definitions: plain functions and methods,
//! constructors, getters and setters.
use vstd::prelude::*;
use crate::ast::{Directive, DirectiveKind, Attribute, Location, FunctionNameKind, FunctionCommon, FunctionBody};
use crate::diagnostics::{Diagnostic, DiagnosticKind};
use crate::semantics::{Ty, Entity, Property, PropertyKind, FunctionParam, ParameterKind, ReferenceBase, ScopeKind, TypeDef, Database, clone_property_kind, promise_result_type, def_of};
use crate::subverifier::{Subverifier, VerifierPhase, DeferError, reported, warned, lemma_reported_by_add, lemma_reported_widen, lemma_warned_widen};
use crate::resolution::{find_property, spec_find_property, spec_instance_property, MAX_INHERITANCE_DEPTH};
use crate::directive::{DirectiveSubverifier, is_finished, metadata_present, has_static_attribute, no_expression_attributes, has_metadata};
use crate::function_common::{FunctionCommonSubverifier, VerifierFunctionPartials, clone_params, signature_operands_verified, params_operands_verified, body_settled, body_done};
use crate::exp::{lemma_step_trans, lemma_scoped_step, lemma_results_stable, lemma_progress_trans};

verus! {

broadcast use vstd::std_specs::hash::group_hash_axioms;

/// Attributes that are flags.
#[derive(Clone, Copy, PartialEq, Eq, Structural, Debug)]
pub enum AttributeFlag {
    Final,
    Override,
    Native,
    Abstract,
}

/// Whether the attribute `a` is the flag `f`.
pub open spec fn attribute_is(a: Attribute, f: AttributeFlag) -> bool {
    match f {
        AttributeFlag::Final => a is Final,
        AttributeFlag::Override => a is Override,
        AttributeFlag::Native => a is Native,
        AttributeFlag::Abstract => a is Abstract,
    }
}

/// Whether a function definition is external (`[Flex::External]`) without
/// being native, nor abstract where it is not a constructor.
pub open spec fn external_not_native_or_abstract(drtv: Directive) -> bool {
    let attributes = drtv.kind->FunctionDefinition_attributes@;
    &&& has_metadata(attributes, "Flex::External"@)
    &&& !(exists|i: int| 0 <= i < attributes.len() && attribute_is(#[trigger] attributes[i], AttributeFlag::Native))
    &&& !(drtv.kind->FunctionDefinition_name_kind != FunctionNameKind::Constructor
        && exists|i: int| 0 <= i < attributes.len() && attribute_is(#[trigger] attributes[i], AttributeFlag::Abstract))
}

/// Whether the body of the function definition `drtv` waits to be verified
/// in the activation recorded for it.
pub open spec fn definition_body_pending(v: Subverifier, drtv: Directive) -> bool {
    let id = drtv.kind->FunctionDefinition_common.id;
    &&& v.function_definition_partials@.contains_key(id)
    &&& v.function_definition_partials@[id].activation < v.host.scopes@.len()
}

/// Whether the attributes hold the flag `f`.
pub fn has_flag(attributes: &Vec<Attribute>, f: AttributeFlag) -> (r: bool)
    ensures
        r == exists|i: int| 0 <= i < attributes@.len() && attribute_is(#[trigger] attributes@[i], f),
{
    let mut i: usize = 0;
    while i < attributes.len()
        invariant
            i <= attributes@.len(),
            forall|j: int| 0 <= j < i ==> !attribute_is(#[trigger] attributes@[j], f),
        decreases attributes@.len() - i,
    {
        let found = match (&attributes[i], f) {
            (Attribute::Final(_), AttributeFlag::Final) => true,
            (Attribute::Override(_), AttributeFlag::Override) => true,
            (Attribute::Native(_), AttributeFlag::Native) => true,
            (Attribute::Abstract(_), AttributeFlag::Abstract) => true,
            _ => false,
        };
        if found {
            return true;
        }
        i = i + 1;
    }
    false
}

/// The class that a class `t` extends.
pub open spec fn spec_base_class(types: Seq<TypeDef>, t: Ty) -> Option<Ty> {
    match def_of(types, t) {
        Some(TypeDef::Class(c)) => c.extends,
        _ => None,
    }
}

/// The class whose scope `s` is, if it is a class scope.
pub open spec fn spec_class_of_scope(db: Database, s: usize) -> Option<Ty> {
    if s < db.scopes@.len() {
        match db.scopes@[s as int].kind {
            ScopeKind::Class { ty } => Some(ty),
            _ => None,
        }
    } else {
        None
    }
}

/// The property named `name` that a class defined in scope `s` inherits.
pub open spec fn spec_inherited_property(db: Database, s: usize, name: Seq<char>) -> Option<Property> {
    match spec_class_of_scope(db, s) {
        Some(c) => match spec_base_class(db.types@, c) {
            Some(b) => spec_instance_property(db.types@, b, name, MAX_INHERITANCE_DEPTH as nat),
            None => None,
        },
        None => None,
    }
}

/// The initial property of a function definition of kind `kind`.
pub open spec fn spec_new_definition(name: String, loc: Location, kind: FunctionNameKind, is_final: bool) -> Property {
    Property {
        name,
        kind: match kind {
            FunctionNameKind::Getter => PropertyKind::Virtual { static_type: Ty::Unresolved, getter: Some(Ty::Unresolved), setter: None },
            FunctionNameKind::Setter => PropertyKind::Virtual { static_type: Ty::Unresolved, getter: None, setter: Some(Ty::Unresolved) },
            _ => PropertyKind::Method { signature: Ty::Unresolved, is_final },
        },
        has_capture: false,
        location: Some(loc),
    }
}

/// Whether a getter (or a setter) can join the property `p`: `p` is a
/// property of getters and setters that has no getter (no setter) yet.
pub open spec fn spec_accessor_joins(p: Property, kind: FunctionNameKind) -> bool {
    match p.kind {
        PropertyKind::Virtual { getter, setter, .. } => (kind == FunctionNameKind::Getter && getter is None)
            || (kind == FunctionNameKind::Setter && setter is None),
        _ => false,
    }
}

/// `p` with the accessor of `kind` attached, with the signature `sig`.
pub open spec fn spec_with_accessor(p: PropertyKind, kind: FunctionNameKind, sig: Ty) -> PropertyKind {
    match p {
        PropertyKind::Virtual { static_type, getter, setter } => if kind == FunctionNameKind::Getter {
            PropertyKind::Virtual { static_type, getter: Some(sig), setter }
        } else {
            PropertyKind::Virtual { static_type, getter, setter: Some(sig) }
        },
        _ => p,
    }
}

impl Subverifier {
    /// Reports a definition of `name` in a class's prototype that shadows
    /// a property the class inherits: a definition marked `override` is
    /// what may redefine an inherited property.
    pub fn ensure_not_shadowing_definition(&mut self, name_loc: &Location, scope: usize, name: &String, is_static: bool)
        ensures
            final(self).step(*old(self)),
            final(self).host.node_mapping == old(self).host.node_mapping,
            final(self).host.scopes == old(self).host.scopes,
            !is_static && spec_inherited_property(old(self).host, scope, name@) is Some
                ==> final(self).spec_error_added(*old(self), *name_loc, DiagnosticKind::ShadowingDefinitionInBaseClass, true),
            !(!is_static && spec_inherited_property(old(self).host, scope, name@) is Some) ==> *final(self) == *old(self),
    {
        if is_static || scope >= self.host.scopes.len() {
            return;
        }
        let c = match &self.host.scopes[scope].kind {
            ScopeKind::Class { ty } => ty.clone(),
            _ => return,
        };
        let base = match self.host.get_def(&c) {
            Some(TypeDef::Class(cd)) => match &cd.extends {
                Some(b) => b.clone(),
                None => return,
            },
            _ => return,
        };
        if self.host.instance_property(&base, name).is_some() {
            self.add_syntax_error(name_loc, DiagnosticKind::ShadowingDefinitionInBaseClass);
        }
    }
}

impl DirectiveSubverifier {
    /// Defines the property of a function definition of kind `kind` named
    /// `name` in scope `scope`: a new method, or a new property of getters
    /// and setters, or the accessor joins the property of its counterpart.
    /// Any other definition of the name is a conflict, and a second
    /// constructor of a class is an error; then nothing is defined.
    fn define_function_property(verifier: &mut Subverifier, scope: usize, name: &String, loc: Location, kind: FunctionNameKind,
        is_final: bool) -> (r: Option<usize>)
        requires
            scope < old(verifier).host.scopes@.len(),
        ensures
            final(verifier).step(*old(verifier)),
            final(verifier).host.node_mapping == old(verifier).host.node_mapping,
            final(verifier).host.scopes@.len() == old(verifier).host.scopes@.len(),
            match spec_find_property(old(verifier).host.scopes@[scope as int].properties@, name@) {
                None => if kind == FunctionNameKind::Constructor && spec_constructor_defined(old(verifier).host, scope) {
                    r is None
                } else {
                    r is Some && r.unwrap() == old(verifier).host.scopes@[scope as int].properties@.len()
                        && final(verifier).host.scopes@[scope as int].properties@
                            == old(verifier).host.scopes@[scope as int].properties@.push(spec_new_definition(*name, loc, kind, is_final))
                },
                Some(i) => if kind != FunctionNameKind::Constructor
                    && spec_accessor_joins(old(verifier).host.scopes@[scope as int].properties@[i], kind) {
                    r is Some && r.unwrap() == i && final(verifier).host.scopes@[scope as int].properties@
                        == old(verifier).host.scopes@[scope as int].properties@.update(i, Property {
                            kind: spec_with_accessor(old(verifier).host.scopes@[scope as int].properties@[i].kind, kind, Ty::Unresolved),
                            ..old(verifier).host.scopes@[scope as int].properties@[i]
                        })
                } else {
                    r is None
                },
            },
            kind == FunctionNameKind::Constructor && r is None ==> final(verifier).spec_has_error_at(loc),
            kind != FunctionNameKind::Constructor ==> match spec_find_property(old(verifier).host.scopes@[scope as int].properties@, name@) {
                Some(i) => !spec_accessor_joins(old(verifier).host.scopes@[scope as int].properties@[i], kind)
                    ==> final(verifier).definition_conflicts@.len() == old(verifier).definition_conflicts@.len() + 1,
                None => true,
            },
    {
        let ghost start = *verifier;
        let new_kind = match kind {
            FunctionNameKind::Getter => PropertyKind::Virtual { static_type: Ty::Unresolved, getter: Some(Ty::Unresolved), setter: None },
            FunctionNameKind::Setter => PropertyKind::Virtual { static_type: Ty::Unresolved, getter: None, setter: Some(Ty::Unresolved) },
            _ => PropertyKind::Method { signature: Ty::Unresolved, is_final },
        };
        let prop = Property { name: name.clone(), kind: new_kind, has_capture: false, location: Some(loc) };
        match find_property(&verifier.host.scopes[scope].properties, name) {
            Some(i) => {
                if kind == FunctionNameKind::Constructor {
                    verifier.add_verify_error(&loc, DiagnosticKind::RedefiningConstructor);
                    return None;
                }
                let joined = match &verifier.host.scopes[scope].properties[i].kind {
                    PropertyKind::Virtual { static_type, getter, setter } => {
                        if kind == FunctionNameKind::Getter && getter.is_none() {
                            Some(PropertyKind::Virtual { static_type: static_type.clone(), getter: Some(Ty::Unresolved),
                                setter: crate::semantics::clone_opt_ty(setter) })
                        } else if kind == FunctionNameKind::Setter && setter.is_none() {
                            Some(PropertyKind::Virtual { static_type: static_type.clone(), getter: crate::semantics::clone_opt_ty(getter),
                                setter: Some(Ty::Unresolved) })
                        } else {
                            None
                        }
                    },
                    _ => None,
                };
                match joined {
                    Some(k) => {
                        verifier.host.set_property_kind(scope, i, k);
                        proof { lemma_scope_properties_step(start, *verifier, scope as int); }
                        Some(i)
                    },
                    None => {
                        let prev = verifier.host.scopes[scope].properties[i].clone_property();
                        verifier.handle_definition_conflict(&prev, &prop);
                        None
                    },
                }
            },
            None => {
                if kind == FunctionNameKind::Constructor && Self::constructor_defined(&verifier.host, scope) {
                    verifier.add_verify_error(&loc, DiagnosticKind::RedefiningConstructor);
                    return None;
                }
                let i = verifier.host.scopes[scope].properties.len();
                verifier.host.add_scope_property(scope, prop);
                proof { lemma_scope_properties_step(start, *verifier, scope as int); }
                Some(i)
            },
        }
    }

    /// Whether the class of the scope `scope` has a constructor.
    fn constructor_defined(db: &Database, scope: usize) -> (r: bool)
        ensures
            r == spec_constructor_defined(*db, scope),
    {
        if scope >= db.scopes.len() {
            return false;
        }
        match &db.scopes[scope].kind {
            ScopeKind::Class { ty } => match db.get_def(ty) {
                Some(TypeDef::Class(c)) => c.constructor.is_some(),
                _ => false,
            },
            _ => false,
        }
    }
}

/// Whether the class of scope `s` already has a constructor.
pub open spec fn spec_constructor_defined(db: Database, s: usize) -> bool {
    match spec_class_of_scope(db, s) {
        Some(c) => match def_of(db.types@, c) {
            Some(TypeDef::Class(cd)) => cd.constructor is Some,
            _ => false,
        },
        None => false,
    }
}

/// Changing the properties of one scope is a verification step.
pub proof fn lemma_scope_properties_step(a: Subverifier, b: Subverifier, s: int)
    requires
        0 <= s < a.host.scopes@.len(),
        b.host.scopes@.len() == a.host.scopes@.len(),
        b.host.scopes@[s].kind == a.host.scopes@[s].kind,
        b.host.scopes@[s].parent == a.host.scopes@[s].parent,
        forall|i: int| 0 <= i < a.host.scopes@.len() && i != s ==> #[trigger] b.host.scopes@[i] == a.host.scopes@[i],
        forall|j: int| 0 <= j < a.host.scopes@[s].properties@.len() ==> j < b.host.scopes@[s].properties@.len()
            && (#[trigger] b.host.scopes@[s].properties@[j]).name == a.host.scopes@[s].properties@[j].name,
        b.host.types == a.host.types,
        b.host.node_mapping == a.host.node_mapping,
        b.host.node_invalidation_mapping == a.host.node_invalidation_mapping,
        b.host.diagnostics == a.host.diagnostics,
        b.invalidated == a.invalidated,
        b.scope == a.scope,
        b.reports == a.reports,
        b.finished == a.finished,
        b.phase_of_drtv == a.phase_of_drtv,
    ensures
        b.step(a),
{
    assert forall|i: int| 0 <= i < a.host.scopes@.len() implies {
        &&& (#[trigger] b.host.scopes@[i]).kind == a.host.scopes@[i].kind
        &&& a.host.scopes@[i].parent is Some ==> b.host.scopes@[i].parent == a.host.scopes@[i].parent
    } by {
        if i != s {
            assert(b.host.scopes@[i] == a.host.scopes@[i]);
        }
    }
    assert forall|i: int, j: int| 0 <= i < a.host.scopes@.len() && 0 <= j < a.host.scopes@[i].properties@.len()
        implies j < b.host.scopes@[i].properties@.len()
            && b.host.scopes@[i].properties@[j].name == a.host.scopes@[i].properties@[j].name by {
        if i != s {
            assert(b.host.scopes@[i] == a.host.scopes@[i]);
        } else {
            assert(b.host.scopes@[s].properties@[j].name == a.host.scopes@[s].properties@[j].name);
        }
    }
}

/// Whether the directive `id` is in phase `p` in `v`.
pub open spec fn phase_is(v: Subverifier, id: u64, p: VerifierPhase) -> bool {
    v.phase_of_drtv@.contains_key(id) && v.phase_of_drtv@[id] == p
}

/// Whether the attributes hold `override`.
pub open spec fn has_override(attributes: Seq<Attribute>) -> bool {
    exists|j: int| 0 <= j < attributes.len() && attribute_is(#[trigger] attributes[j], AttributeFlag::Override)
}

/// The property that the node of a function definition is mapped to: the
/// scope and the index of the function's property.
pub open spec fn spec_definition_slot(v: Subverifier, id: u64) -> Option<(usize, usize)> {
    if v.host.node_mapping@.contains_key(id) {
        match v.host.node_mapping@[id] {
            Some(Entity::PropertyReference { base: ReferenceBase::Scope { scope, index }, .. }) =>
                if scope < v.host.scopes@.len() && index < v.host.scopes@[scope as int].properties@.len() {
                    Some((scope, index))
                } else {
                    None
                },
            _ => None,
        }
    } else {
        None
    }
}

pub(crate) fn definition_slot(verifier: &Subverifier, id: u64) -> (r: Option<(usize, usize)>)
    ensures
        r == spec_definition_slot(*verifier, id),
{
    match verifier.host.node_mapping.get(&id) {
        Some(Some(Entity::PropertyReference { base: ReferenceBase::Scope { scope, index }, .. })) => {
            if *scope < verifier.host.scopes.len() && *index < verifier.host.scopes[*scope].properties.len() {
                Some((*scope, *index))
            } else {
                None
            }
        },
        _ => None,
    }
}

/// What the first phase of a function definition leaves: the definition
/// is finished, or it is in phase Beta with its node mapped to a property
/// of its name.
pub open spec fn spec_defined_or_finished(v: Subverifier, drtv: Directive, r: Result<(), DeferError>) -> bool {
    ||| r is Ok && is_finished(v, drtv.id)
    ||| r is Err && v.phase_of_drtv@.get(drtv.id) == Some(VerifierPhase::Beta) && match spec_definition_slot(v, drtv.id) {
        Some((s, i)) => v.host.scopes@[s as int].properties@[i as int].name@ == drtv.kind->FunctionDefinition_name@,
        None => false,
    }
}

/// What the first phase of a function definition without attributes, other
/// than a constructor, does in the current scope: a free name is defined
/// (or an accessor joins the property of its counterpart) and the
/// definition goes on to phase Beta; a name taken otherwise is a conflict,
/// and the definition is finished.
pub open spec fn spec_alpha_outcome(old: Subverifier, new: Subverifier, drtv: Directive, r: Result<(), DeferError>) -> bool {
    let kind = drtv.kind->FunctionDefinition_name_kind;
    let name = drtv.kind->FunctionDefinition_name@;
    match old.scope {
        Some(s) => s < old.host.scopes@.len() ==> match spec_find_property(old.host.scopes@[s as int].properties@, name) {
            None => r is Err && new.phase_of_drtv@.get(drtv.id) == Some(VerifierPhase::Beta)
                && spec_definition_slot(new, drtv.id) == Some((s, old.host.scopes@[s as int].properties@.len() as usize)),
            Some(i) => if spec_accessor_joins(old.host.scopes@[s as int].properties@[i], kind) {
                r is Err && new.phase_of_drtv@.get(drtv.id) == Some(VerifierPhase::Beta)
                    && spec_definition_slot(new, drtv.id) == Some((s, i as usize))
            } else {
                r is Ok && is_finished(new, drtv.id) && new.definition_conflicts@.len() == old.definition_conflicts@.len() + 1
            },
        },
        None => true,
    }
}

/// The number of parameters of a function definition that its first
/// parameters of each kind leave accepted.
pub open spec fn accepted_count(common: FunctionCommon) -> nat {
    crate::function_common::spec_accepted_kinds(common.signature.parameters@, common.signature.parameters@.len() as int).len()
}

/// What the second phase of a function definition reports the first time
/// it resolves the signature, at the name: a getter with parameters, a
/// setter without exactly one, a setter whose result type is not `void`,
/// and (as a warning) a function other than a constructor without a result
/// type.
pub open spec fn spec_beta_reports(old: Subverifier, new: Subverifier, drtv: Directive) -> bool {
    let common = drtv.kind->FunctionDefinition_common;
    let kind = drtv.kind->FunctionDefinition_name_kind;
    let loc = drtv.kind->FunctionDefinition_name_location;
    &&& kind == FunctionNameKind::Getter && accepted_count(common) != 0 ==> reported(old, new, loc, DiagnosticKind::GetterMustTakeNoParameters)
    &&& kind == FunctionNameKind::Setter && accepted_count(common) != 1 ==> reported(old, new, loc, DiagnosticKind::SetterMustTakeOneParameter)
    &&& kind != FunctionNameKind::Constructor && common.signature.result_type is None
        ==> warned(old, new, loc, DiagnosticKind::ReturnValueHasNoTypeDeclaration)
    &&& kind == FunctionNameKind::Setter ==> match common.signature.result_type {
        Some(a) => (match new.result_of(a.id) { Some(e) => e.spec_as_type() != Some(Ty::Void), None => true })
            ==> reported(old, new, loc, DiagnosticKind::SetterMustReturnVoid),
        None => true,
    }
}

/// Whether `a` and `b` are function types with the same parameters and
/// result type.
pub open spec fn spec_signatures_match(types: Seq<TypeDef>, a: Ty, b: Ty) -> bool {
    match (def_of(types, a), def_of(types, b)) {
        (Some(TypeDef::Function(pa, ra)), Some(TypeDef::Function(pb, rb))) => pa@ == pb@ && ra == rb,
        _ => false,
    }
}

/// The error that an `override` of the property `name` defined at index
/// `i` of scope `s` is: none when it overrides a method that is not final
/// with the same signature, or a property of getters and setters.
pub open spec fn spec_override_error(db: Database, s: usize, i: usize, name: Seq<char>) -> Option<DiagnosticKind> {
    match spec_inherited_property(db, s, name) {
        Some(p) => match p.kind {
            PropertyKind::Method { signature: base_sig, is_final } => if is_final {
                Some(DiagnosticKind::OverridingFinalMethod)
            } else {
                match spec_property_kind_at(db, s, i) {
                    Some(PropertyKind::Method { signature, .. }) => if spec_signatures_match(db.types@, signature, base_sig) {
                        None
                    } else {
                        Some(DiagnosticKind::IncompatibleOverride)
                    },
                    _ => None,
                }
            },
            PropertyKind::Virtual { .. } => None,
            _ => Some(DiagnosticKind::MustOverrideAMethod),
        },
        None => Some(DiagnosticKind::MustOverrideAMethod),
    }
}

/// Whether a block of directives holds a `super` statement.
pub open spec fn has_super_statement(directives: Seq<Directive>) -> bool {
    exists|i: int| 0 <= i < directives.len() && (#[trigger] directives[i]).kind is SuperStatement
}

/// Whether the body of a constructor calls the constructor of its base
/// class: a block body holds a `super` statement; a constructor without a
/// body is taken to.
pub open spec fn spec_super_found(common: FunctionCommon) -> bool {
    match common.body {
        Some(FunctionBody::Block(b)) => has_super_statement(b.directives@),
        Some(FunctionBody::Expression(_)) => false,
        None => true,
    }
}

/// Whether the constructor of the base class of the class of scope `s`
/// has a required parameter.
pub open spec fn spec_base_constructor_requires_arguments(db: Database, s: usize) -> bool {
    match spec_class_of_scope(db, s) {
        Some(c) => match spec_base_class(db.types@, c) {
            Some(b) => match def_of(db.types@, b) {
                Some(TypeDef::Class(bd)) => match bd.constructor {
                    Some(sig) => match def_of(db.types@, sig) {
                        Some(TypeDef::Function(ps, _)) => exists|j: int| 0 <= j < ps@.len()
                            && (#[trigger] ps@[j]).kind == ParameterKind::Required,
                        _ => false,
                    },
                    None => false,
                },
                _ => false,
            },
            None => false,
        },
        None => false,
    }
}

/// The result type that a function definition of kind `kind` takes without
/// a result type annotation.
pub open spec fn spec_default_result_type(kind: FunctionNameKind, is_async: bool) -> Ty {
    match kind {
        FunctionNameKind::Setter | FunctionNameKind::Constructor => Ty::Void,
        FunctionNameKind::Getter => Ty::Any,
        FunctionNameKind::Identifier => if is_async { Ty::PromiseOf(Box::new(Ty::Any)) } else { Ty::Any },
    }
}

impl DirectiveSubverifier {
    /// Determines the result type of a function definition, once: a setter
    /// and a constructor return `void`, and a setter annotated with another
    /// type is an error; otherwise the annotated type, or, without
    /// annotation, `*` (`Promise.<*>` for an asynchronous function) with a
    /// warning.
    fn definition_result_type(verifier: &mut Subverifier, common: &FunctionCommon, loc: Location, kind: FunctionNameKind,
        partials: &mut VerifierFunctionPartials) -> (r: Result<(), DeferError>)
        requires
            old(verifier).scope is Some,
        ensures
            final(verifier).step(*old(verifier)),
            final(partials).activation == old(partials).activation,
            final(partials).params == old(partials).params,
            final(partials).signature == old(partials).signature,
            old(partials).result_type is Some ==> *final(partials) == *old(partials) && *final(verifier) == *old(verifier) && r is Ok,
            r is Ok ==> final(partials).result_type is Some,
            r is Ok && old(partials).result_type is None && (kind == FunctionNameKind::Setter || kind == FunctionNameKind::Constructor)
                ==> final(partials).result_type == Some(Ty::Void),
            r is Ok && old(partials).result_type is None && common.signature.result_type is None ==> {
                &&& final(partials).result_type == Some(spec_default_result_type(kind, common.contains_await))
                &&& kind != FunctionNameKind::Constructor ==> crate::subverifier::warning_at(final(verifier).host.diagnostics@, loc.first_offset)
            },
            (match common.signature.result_type { Some(a) => old(verifier).is_verified(a.id), None => true }) ==> r is Ok,
            r is Ok && old(partials).result_type is None && common.signature.result_type is None && kind != FunctionNameKind::Constructor
                ==> warned(*old(verifier), *final(verifier), loc, DiagnosticKind::ReturnValueHasNoTypeDeclaration),
            r is Ok && old(partials).result_type is None && kind == FunctionNameKind::Setter ==> match common.signature.result_type {
                Some(a) => (match final(verifier).result_of(a.id) { Some(e) => e.spec_as_type() != Some(Ty::Void), None => true })
                    ==> reported(*old(verifier), *final(verifier), loc, DiagnosticKind::SetterMustReturnVoid),
                None => true,
            },
            r is Ok && old(partials).result_type is None ==> match common.signature.result_type {
                Some(a) => final(verifier).is_verified(a.id),
                None => true,
            },
        decreases common, 0nat,
    {
        if partials.result_type.is_some() {
            return Ok(());
        }
        let ghost start = *verifier;
        proof {
            assert(decreases_to!(*common => common.signature));
            assert(decreases_to!(common.signature => common.signature.result_type));
        }
        match &common.signature.result_type {
            Some(annot) => {
                proof { assert(decreases_to!(common.signature.result_type => common.signature.result_type->0)); }
                let t = verifier.verify_type_expression(annot)?;
                let t = match t {
                    Some(t) => t,
                    None => Ty::Invalidation,
                };
                let ghost s0 = *verifier;
                match kind {
                    FunctionNameKind::Setter => {
                        if !t.is(Ty::Void) {
                            let ghost s1 = *verifier;
                            verifier.add_verify_error(&loc, DiagnosticKind::SetterMustReturnVoid);
                            proof {
                                lemma_step_trans(start, s1, *verifier);
                                lemma_reported_by_add(s1, *verifier, loc, DiagnosticKind::SetterMustReturnVoid);
                                lemma_reported_widen(start, s1, *verifier, *verifier, loc, DiagnosticKind::SetterMustReturnVoid);
                            }
                        }
                        partials.set_result_type(Some(Ty::Void));
                    },
                    FunctionNameKind::Constructor => partials.set_result_type(Some(Ty::Void)),
                    _ => partials.set_result_type(Some(t)),
                }
            },
            None => {
                if kind != FunctionNameKind::Constructor {
                    let ghost s1 = *verifier;
                    verifier.add_warning(&loc, DiagnosticKind::ReturnValueHasNoTypeDeclaration);
                    proof {
                        assert(verifier.reports@[s1.reports@.len() as int] == Diagnostic { location: loc,
                            kind: DiagnosticKind::ReturnValueHasNoTypeDeclaration, is_warning: true, is_syntax_error: false });
                    }
                }
                let t = match kind {
                    FunctionNameKind::Setter | FunctionNameKind::Constructor => Ty::Void,
                    FunctionNameKind::Getter => Ty::Any,
                    FunctionNameKind::Identifier => if common.contains_await { Ty::PromiseOf(Box::new(Ty::Any)) } else { Ty::Any },
                };
                partials.set_result_type(Some(t));
            },
        }
        Ok(())
    }

    /// Reports a definition marked `override` that overrides no inherited
    /// method or property of getters and setters, that overrides a final
    /// method, or whose signature differs from that of the method it overrides.
    fn ensure_overrides(verifier: &mut Subverifier, attributes: &Vec<Attribute>, s: usize, i: usize, name: &String, loc: Location)
        ensures
            final(verifier).step(*old(verifier)),
            final(verifier).host.scopes == old(verifier).host.scopes,
            final(verifier).host.node_mapping == old(verifier).host.node_mapping,
            final(verifier).phase_of_drtv == old(verifier).phase_of_drtv,
            !(exists|j: int| 0 <= j < attributes@.len() && attribute_is(#[trigger] attributes@[j], AttributeFlag::Override))
                ==> *final(verifier) == *old(verifier),
            (exists|j: int| 0 <= j < attributes@.len() && attribute_is(#[trigger] attributes@[j], AttributeFlag::Override))
                ==> match spec_override_error(old(verifier).host, s, i, name@) {
                    Some(k) => final(verifier).spec_error_added(*old(verifier), loc, k, false),
                    None => *final(verifier) == *old(verifier),
                },
    {
        if !has_flag(attributes, AttributeFlag::Override) {
            return;
        }
        let c = if s < verifier.host.scopes.len() {
            match &verifier.host.scopes[s].kind {
                ScopeKind::Class { ty } => Some(ty.clone()),
                _ => None,
            }
        } else {
            None
        };
        let base = match c {
            Some(c) => match verifier.host.get_def(&c) {
                Some(TypeDef::Class(cd)) => crate::semantics::clone_opt_ty(&cd.extends),
                _ => None,
            },
            None => None,
        };
        let inherited = match base {
            Some(b) => match verifier.host.instance_property(&b, name) {
                Some(p) => Some(clone_property_kind(&p.kind)),
                None => None,
            },
            None => None,
        };
        let error = match inherited {
            Some(PropertyKind::Method { signature: base_sig, is_final }) => {
                if is_final {
                    Some(DiagnosticKind::OverridingFinalMethod)
                } else {
                    let own = if s < verifier.host.scopes.len() && i < verifier.host.scopes[s].properties.len() {
                        match &verifier.host.scopes[s].properties[i].kind {
                            PropertyKind::Method { signature, .. } => Some(signature.clone()),
                            _ => None,
                        }
                    } else {
                        None
                    };
                    match own {
                        Some(sig) => if !Self::signatures_match(&verifier.host, &sig, &base_sig) {
                            Some(DiagnosticKind::IncompatibleOverride)
                        } else {
                            None
                        },
                        None => None,
                    }
                }
            },
            Some(PropertyKind::Virtual { .. }) => None,
            _ => Some(DiagnosticKind::MustOverrideAMethod),
        };
        if let Some(k) = error {
            verifier.add_verify_error(&loc, k);
        }
    }

    /// Whether two function types take the same parameters and return the
    /// same type.
    fn signatures_match(db: &Database, a: &Ty, b: &Ty) -> (r: bool)
        ensures
            r == spec_signatures_match(db.types@, *a, *b),
    {
        match (db.get_def(a), db.get_def(b)) {
            (Some(TypeDef::Function(pa, ra)), Some(TypeDef::Function(pb, rb))) => {
                if !ra.same(rb) || pa.len() != pb.len() {
                    proof {
                        if pa@.len() != pb@.len() {
                            assert(pa@ != pb@);
                        }
                    }
                    return false;
                }
                let mut k: usize = 0;
                while k < pa.len()
                    invariant
                        k <= pa@.len(),
                        pa@.len() == pb@.len(),
                        def_of(db.types@, *a) == Some(TypeDef::Function(*pa, *ra)),
                        def_of(db.types@, *b) == Some(TypeDef::Function(*pb, *rb)),
                        *ra == *rb,
                        forall|j: int| 0 <= j < k ==> #[trigger] pa@[j] == pb@[j],
                    decreases pa@.len() - k,
                {
                    if pa[k].kind != pb[k].kind || !pa[k].static_type.same(&pb[k].static_type) {
                        proof {
                            assert(pa@[k as int] != pb@[k as int]);
                            assert(pa@ != pb@);
                        }
                        return false;
                    }
                    k = k + 1;
                }
                proof { assert(pa@ =~= pb@); }
                true
            },
            _ => false,
        }
    }

    /// Reports a constructor that does not call the constructor of its base
    /// class when that one takes required arguments.
    fn ensure_super_statement(verifier: &mut Subverifier, scope: usize, common: &FunctionCommon, loc: Location)
        ensures
            final(verifier).step(*old(verifier)),
            final(verifier).host.scopes == old(verifier).host.scopes,
            final(verifier).host.node_mapping == old(verifier).host.node_mapping,
            final(verifier).phase_of_drtv == old(verifier).phase_of_drtv,
            spec_base_constructor_requires_arguments(old(verifier).host, scope) && !spec_super_found(*common)
                ==> final(verifier).spec_error_added(*old(verifier), loc, DiagnosticKind::ConstructorMustContainSuperStatement, false),
            !(spec_base_constructor_requires_arguments(old(verifier).host, scope) && !spec_super_found(*common))
                ==> *final(verifier) == *old(verifier),
    {
        if scope >= verifier.host.scopes.len() {
            return;
        }
        let c = match &verifier.host.scopes[scope].kind {
            ScopeKind::Class { ty } => ty.clone(),
            _ => return,
        };
        let b = match verifier.host.get_def(&c) {
            Some(TypeDef::Class(cd)) => match &cd.extends {
                Some(b) => b.clone(),
                None => return,
            },
            _ => return,
        };
        let sig = match verifier.host.get_def(&b) {
            Some(TypeDef::Class(bd)) => match &bd.constructor {
                Some(sig) => sig.clone(),
                None => return,
            },
            _ => return,
        };
        let requires_arguments = match verifier.host.get_def(&sig) {
            Some(TypeDef::Function(ps, _)) => {
                let mut found = false;
                let mut j: usize = 0;
                while j < ps.len()
                    invariant
                        j <= ps@.len(),
                        found == exists|k: int| 0 <= k < j && (#[trigger] ps@[k]).kind == ParameterKind::Required,
                    decreases ps@.len() - j,
                {
                    if ps[j].kind == ParameterKind::Required {
                        found = true;
                    }
                    j = j + 1;
                }
                found
            },
            _ => false,
        };
        if !requires_arguments {
            return;
        }
        let super_found = match &common.body {
            Some(FunctionBody::Block(block)) => {
                let mut found = false;
                let mut j: usize = 0;
                while j < block.directives.len()
                    invariant
                        j <= block.directives@.len(),
                        found == exists|k: int| 0 <= k < j && (#[trigger] block.directives@[k]).kind is SuperStatement,
                    decreases block.directives@.len() - j,
                {
                    if matches!(block.directives[j].kind, DirectiveKind::SuperStatement { .. }) {
                        found = true;
                    }
                    j = j + 1;
                }
                found
            },
            Some(FunctionBody::Expression(_)) => false,
            None => true,
        };
        if !super_found {
            verifier.add_verify_error(&loc, DiagnosticKind::ConstructorMustContainSuperStatement);
        }
    }
}

/// The property kind at index `i` of scope `s`.
pub open spec fn spec_property_kind_at(db: Database, s: usize, i: usize) -> Option<PropertyKind> {
    if s < db.scopes@.len() && i < db.scopes@[s as int].properties@.len() {
        Some(db.scopes@[s as int].properties@[i as int].kind)
    } else {
        None
    }
}

/// The type that the accessor of `kind` with signature `sig` gives or takes:
/// the result type of a getter, the type of a setter's parameter.
pub open spec fn spec_accessor_type(types: Seq<TypeDef>, sig: Ty, kind: FunctionNameKind) -> Option<Ty> {
    match def_of(types, sig) {
        Some(TypeDef::Function(ps, res)) => if kind == FunctionNameKind::Getter {
            Some(res)
        } else if ps@.len() > 0 {
            Some(ps@[0].static_type)
        } else {
            None
        },
        _ => None,
    }
}

/// Whether the accessor of `kind` of the property at index `i` of scope `s`
/// gives or takes another type than the property's.
pub open spec fn spec_accessor_type_mismatch(db: Database, s: usize, i: usize, kind: FunctionNameKind) -> bool {
    match spec_property_kind_at(db, s, i) {
        Some(PropertyKind::Virtual { static_type, getter, setter }) => {
            let acc = if kind == FunctionNameKind::Getter { getter } else { setter };
            match acc {
                Some(sig) => match spec_accessor_type(db.types@, sig, kind) {
                    Some(t) => t != static_type,
                    None => false,
                },
                None => false,
            }
        },
        _ => false,
    }
}

impl DirectiveSubverifier {
    /// Reports a getter that does not return the type of its property, or a
    /// setter that does not take it.
    fn ensure_accessor_type(verifier: &mut Subverifier, s: usize, i: usize, kind: FunctionNameKind, loc: Location)
        requires
            kind == FunctionNameKind::Getter || kind == FunctionNameKind::Setter,
        ensures
            final(verifier).step(*old(verifier)),
            final(verifier).phase_of_drtv == old(verifier).phase_of_drtv,
            spec_accessor_type_mismatch(old(verifier).host, s, i, kind) ==> final(verifier).spec_error_added(*old(verifier), loc,
                if kind == FunctionNameKind::Getter { DiagnosticKind::GetterMustReturnDataType } else { DiagnosticKind::SetterMustTakeDataType },
                false),
            !spec_accessor_type_mismatch(old(verifier).host, s, i, kind) ==> *final(verifier) == *old(verifier),
    {
        if s >= verifier.host.scopes.len() || i >= verifier.host.scopes[s].properties.len() {
            return;
        }
        let (static_type, acc) = match &verifier.host.scopes[s].properties[i].kind {
            PropertyKind::Virtual { static_type, getter, setter } => (static_type.clone(),
                if kind == FunctionNameKind::Getter { crate::semantics::clone_opt_ty(getter) } else { crate::semantics::clone_opt_ty(setter) }),
            _ => return,
        };
        let sig = match acc {
            Some(sig) => sig,
            None => return,
        };
        let t = match verifier.host.get_def(&sig) {
            Some(TypeDef::Function(ps, res)) => if kind == FunctionNameKind::Getter {
                res.clone()
            } else if ps.len() > 0 {
                ps[0].static_type.clone()
            } else {
                return;
            },
            _ => return,
        };
        if !t.same(&static_type) {
            if kind == FunctionNameKind::Getter {
                verifier.add_verify_error(&loc, DiagnosticKind::GetterMustReturnDataType);
            } else {
                verifier.add_verify_error(&loc, DiagnosticKind::SetterMustTakeDataType);
            }
        }
    }

    /// The first phase of a function definition: its property is defined in
    /// the scope the definition belongs to (a constructor's in its class's
    /// scope), and the definition's node is mapped to it. An external
    /// function must be native or abstract.
    #[verifier::spinoff_prover]
    fn fn_defn_alpha(verifier: &mut Subverifier, drtv: &Directive) -> (r: Result<(), DeferError>)
        requires
            old(verifier).scope is Some,
            drtv.kind is FunctionDefinition,
        ensures
            final(verifier).step(*old(verifier)),
            r is Ok ==> is_finished(*final(verifier), drtv.id),
            no_expression_attributes(drtv.kind->FunctionDefinition_attributes@) && !old(verifier).host.node_mapping@.contains_key(drtv.id)
                ==> spec_defined_or_finished(*final(verifier), *drtv, r),
            drtv.kind->FunctionDefinition_attributes@.len() == 0 && drtv.kind->FunctionDefinition_name_kind != FunctionNameKind::Constructor
                && !old(verifier).host.node_mapping@.contains_key(drtv.id) ==> spec_alpha_outcome(*old(verifier), *final(verifier), *drtv, r),
            no_expression_attributes(drtv.kind->FunctionDefinition_attributes@) && r is Err && external_not_native_or_abstract(*drtv)
                ==> reported(*old(verifier), *final(verifier),
                drtv.kind->FunctionDefinition_name_location, DiagnosticKind::ExternalFunctionMustBeNativeOrAbstract),
        decreases drtv, 0nat,
    {
        let ghost start = *verifier;
        let (attributes, name, loc, kind) = match &drtv.kind {
            DirectiveKind::FunctionDefinition { attributes, name, name_location, name_kind, .. } => (attributes, name, *name_location, *name_kind),
            _ => { proof { assert(false); } return Ok(()); },
        };
        proof {
            assert(decreases_to!(*drtv => drtv.kind));
            assert(decreases_to!(drtv.kind => drtv.kind->FunctionDefinition_attributes));
        }
        let def_scope = if kind == FunctionNameKind::Constructor {
            match verifier.search_hoist_scope() {
                Some(h) => if matches!(verifier.host.scopes[h].kind, ScopeKind::Class { .. }) { Some(h) } else { None },
                None => None,
            }
        } else {
            match Self::definition_local_maybe_static(verifier, attributes)? {
                Ok(s) => Some(s),
                Err(()) => None,
            }
        };
        let def_scope = match def_scope {
            Some(s) => s,
            None => {
                verifier.set_drtv_phase(drtv, VerifierPhase::Finished);
                return Ok(());
            },
        };
        let ghost s1 = *verifier;
        let is_external = metadata_present(attributes, "Flex::External");
        let native = has_flag(attributes, AttributeFlag::Native);
        let abstract_ = kind != FunctionNameKind::Constructor && has_flag(attributes, AttributeFlag::Abstract);
        if is_external && !(native || abstract_) {
            verifier.add_verify_error(&loc, DiagnosticKind::ExternalFunctionMustBeNativeOrAbstract);
        }
        let ghost s2 = *verifier;
        proof {
            if external_not_native_or_abstract(*drtv) {
                lemma_reported_by_add(s1, s2, loc, DiagnosticKind::ExternalFunctionMustBeNativeOrAbstract);
            }
        }
        let is_final = has_flag(attributes, AttributeFlag::Final);
        let i = Self::define_function_property(verifier, def_scope, name, loc, kind, is_final);
        proof {
            lemma_step_trans(start, s1, s2);
            lemma_step_trans(start, s2, *verifier);
        }
        let i = match i {
            Some(i) => i,
            None => {
                verifier.set_drtv_phase(drtv, VerifierPhase::Finished);
                return Ok(());
            },
        };
        proof {
            crate::resolution::lemma_found_property_named(s2.host.scopes@[def_scope as int].properties@, name@);
        }
        let property = clone_property_kind(&verifier.host.scopes[def_scope].properties[i].kind);
        let ghost s3 = *verifier;
        verifier.map_node(drtv.id, Some(Entity::PropertyReference {
            base: ReferenceBase::Scope { scope: def_scope, index: i },
            name: name.clone(),
            property: Box::new(property),
        }));
        proof { lemma_step_trans(start, s3, *verifier); }
        verifier.set_drtv_phase(drtv, VerifierPhase::Beta);
        proof {
            if external_not_native_or_abstract(*drtv) {
                lemma_reported_widen(start, s1, s2, *verifier, loc, DiagnosticKind::ExternalFunctionMustBeNativeOrAbstract);
            }
        }
        Err(DeferError)
    }
}

/// The property kind of a function definition once its signature `sig` is
/// known: a method takes the signature; a getter takes it and gives its
/// property its result type; a setter takes it and, while there is no
/// getter, gives its property the type of its parameter.
pub open spec fn spec_with_signature(p: PropertyKind, kind: FunctionNameKind, sig: Ty, result: Ty, param: Ty) -> PropertyKind {
    match kind {
        FunctionNameKind::Getter => match p {
            PropertyKind::Virtual { setter, .. } => PropertyKind::Virtual { static_type: result, getter: Some(sig), setter },
            _ => p,
        },
        FunctionNameKind::Setter => match p {
            PropertyKind::Virtual { static_type, getter, .. } => PropertyKind::Virtual {
                static_type: if getter is None { param } else { static_type },
                getter,
                setter: Some(sig),
            },
            _ => p,
        },
        _ => match p {
            PropertyKind::Method { is_final, .. } => PropertyKind::Method { signature: sig, is_final },
            _ => p,
        },
    }
}

impl DirectiveSubverifier {
    /// Gives the property of a function definition its signature.
    fn set_definition_signature(verifier: &mut Subverifier, s: usize, i: usize, kind: FunctionNameKind, sig: Ty, result: Ty, param: Ty)
        requires
            s < old(verifier).host.scopes@.len(),
            i < old(verifier).host.scopes@[s as int].properties@.len(),
        ensures
            final(verifier).step(*old(verifier)),
            final(verifier).host.node_mapping == old(verifier).host.node_mapping,
            final(verifier).host.diagnostics == old(verifier).host.diagnostics,
            spec_property_kind_at(final(verifier).host, s, i) == Some(spec_with_signature(
                old(verifier).host.scopes@[s as int].properties@[i as int].kind, kind, sig, result, param)),
    {
        let ghost start = *verifier;
        let k = match (&verifier.host.scopes[s].properties[i].kind, kind) {
            (PropertyKind::Virtual { setter, .. }, FunctionNameKind::Getter) =>
                PropertyKind::Virtual { static_type: result, getter: Some(sig), setter: crate::semantics::clone_opt_ty(setter) },
            (PropertyKind::Virtual { static_type, getter, .. }, FunctionNameKind::Setter) => PropertyKind::Virtual {
                static_type: if getter.is_none() { param } else { static_type.clone() },
                getter: crate::semantics::clone_opt_ty(getter),
                setter: Some(sig),
            },
            (PropertyKind::Method { is_final, .. }, FunctionNameKind::Identifier)
            | (PropertyKind::Method { is_final, .. }, FunctionNameKind::Constructor) => PropertyKind::Method { signature: sig, is_final: *is_final },
            (p, _) => clone_property_kind(p),
        };
        verifier.host.set_property_kind(s, i, k);
        proof { lemma_scope_properties_step(start, *verifier, s as int); }
    }

    /// The second phase of a function definition: its activation is made,
    /// with `this` of the `this` parameter's type, or of its class for an
    /// instance method, or of the enclosing activation; then its
    /// parameters, result type and signature are resolved, and the
    /// signature is given to its property. A getter takes no parameters and
    /// a setter takes one. A definition that is not marked `override` must
    /// not shadow an inherited property.
    fn fn_defn_beta(verifier: &mut Subverifier, drtv: &Directive) -> (r: Result<(), DeferError>)
        requires
            old(verifier).scope is Some,
            drtv.kind is FunctionDefinition,
        ensures
            final(verifier).step(*old(verifier)),
            r is Ok ==> is_finished(*final(verifier), drtv.id),
            no_expression_attributes(drtv.kind->FunctionDefinition_attributes@)
                && signature_operands_verified(*old(verifier), drtv.kind->FunctionDefinition_common.signature) ==> {
                ||| r is Ok && is_finished(*final(verifier), drtv.id)
                ||| r is Err && final(verifier).phase_of_drtv@.get(drtv.id) == Some(VerifierPhase::Delta)
            },
            r is Err && no_expression_attributes(drtv.kind->FunctionDefinition_attributes@)
                && signature_operands_verified(*old(verifier), drtv.kind->FunctionDefinition_common.signature)
                && !old(verifier).function_definition_partials@.contains_key(drtv.kind->FunctionDefinition_common.id)
                ==> spec_beta_reports(*old(verifier), *final(verifier), *drtv),
        decreases drtv, 0nat,
    {
        let ghost start = *verifier;
        let (attributes, name, loc, kind, common) = match &drtv.kind {
            DirectiveKind::FunctionDefinition { attributes, name, name_location, name_kind, common } =>
                (attributes, name, *name_location, *name_kind, common),
            _ => { proof { assert(false); } return Ok(()); },
        };
        proof {
            assert(decreases_to!(*drtv => drtv.kind));
            assert(decreases_to!(drtv.kind => drtv.kind->FunctionDefinition_attributes));
            assert(decreases_to!(drtv.kind => drtv.kind->FunctionDefinition_common));
            assert(decreases_to!(*common => common.signature));
            assert(decreases_to!(common.signature => common.signature.this_parameter));
            assert(decreases_to!(common.signature => common.signature.parameters));
        }
        let (s, i) = match definition_slot(verifier, drtv.id) {
            Some(x) => x,
            None => {
                verifier.set_drtv_phase(drtv, VerifierPhase::Finished);
                return Ok(());
            },
        };
        if kind != FunctionNameKind::Constructor {
            if Self::definition_local_maybe_static(verifier, attributes)?.is_err() {
                verifier.set_drtv_phase(drtv, VerifierPhase::Finished);
                return Ok(());
            }
        }
        let ghost s1 = *verifier;
        let is_static = has_static_attribute(attributes);
        let class_ty = match &verifier.host.scopes[s].kind {
            ScopeKind::Class { ty } => Some(ty.clone()),
            _ => None,
        };
        let kscope = verifier.scope;
        let partials = Self::definition_partials(verifier, common, is_static, class_ty, loc);
        proof { lemma_step_trans(start, s1, *verifier); }
        let mut partials = partials?;
        let act = partials.activation;
        if act >= verifier.host.scopes.len() || s >= verifier.host.scopes.len() {
            verifier.set_drtv_phase(drtv, VerifierPhase::Finished);
            return Ok(());
        }
        let ghost s3 = *verifier;
        verifier.inherit_and_enter_scope(act);
        let ghost s4 = *verifier;
        let ghost p4 = partials;
        let r = Self::definition_signature(verifier, s, i, common, kind, loc, &mut partials);
        let ghost s5 = *verifier;
        if r.is_ok() && kind != FunctionNameKind::Constructor && !has_flag(attributes, AttributeFlag::Override) {
            verifier.ensure_not_shadowing_definition(&loc, s, name, is_static);
        }
        proof { lemma_step_trans(s4, s5, *verifier); }
        let ghost s6 = *verifier;
        verifier.scope = kscope;
        proof { lemma_scoped_step(s3, s4, s6, *verifier); lemma_step_trans(start, s3, *verifier); }
        r?;
        verifier.set_drtv_phase(drtv, VerifierPhase::Delta);
        proof {
            lemma_progress_trans(start, s3, s4);
            lemma_results_stable(s5, *verifier);
            if no_expression_attributes(attributes@)
                && signature_operands_verified(start, common.signature)
                && !start.function_definition_partials@.contains_key(common.id) {
                assert(p4.params is None && p4.result_type is None);
                if kind == FunctionNameKind::Getter && accepted_count(*common) != 0 {
                    lemma_reported_widen(start, s4, s5, *verifier, loc, DiagnosticKind::GetterMustTakeNoParameters);
                }
                if kind == FunctionNameKind::Setter && accepted_count(*common) != 1 {
                    lemma_reported_widen(start, s4, s5, *verifier, loc, DiagnosticKind::SetterMustTakeOneParameter);
                }
                if kind != FunctionNameKind::Constructor && common.signature.result_type is None {
                    lemma_warned_widen(start, s4, s5, *verifier, loc, DiagnosticKind::ReturnValueHasNoTypeDeclaration);
                }
                if kind == FunctionNameKind::Setter {
                    if let Some(a) = &common.signature.result_type {
                        if (match verifier.result_of(a.id) { Some(e) => e.spec_as_type() != Some(Ty::Void), None => true }) {
                            lemma_reported_widen(start, s4, s5, *verifier, loc, DiagnosticKind::SetterMustReturnVoid);
                        }
                    }
                }
            }
        }
        Err(DeferError)
    }

    /// The partial results kept for a function definition, made the first
    /// time with a new activation whose `this` has the type of the `this`
    /// parameter, or of the class for an instance method, or of the
    /// enclosing activation, or `*`.
    fn definition_partials(verifier: &mut Subverifier, common: &FunctionCommon, is_static: bool, class_ty: Option<Ty>, loc: Location)
        -> (r: Result<VerifierFunctionPartials, DeferError>)
        requires
            old(verifier).scope is Some,
        ensures
            final(verifier).step(*old(verifier)),
            r matches Ok(p) ==> final(verifier).function_definition_partials@.contains_key(common.id),
            !old(verifier).function_definition_partials@.contains_key(common.id) ==> match r {
                Ok(p) => p.activation < final(verifier).host.scopes@.len() && p.params is None && p.result_type is None
                    && p.signature is None && final(verifier).host.scopes@[p.activation as int].kind is Activation,
                Err(_) => true,
            },
            (match common.signature.this_parameter { Some(tp) => old(verifier).is_verified(tp.id), None => true }) ==> r is Ok,
        decreases common, 0nat,
    {
        let ghost start = *verifier;
        proof {
            assert(decreases_to!(*common => common.signature));
            assert(decreases_to!(common.signature => common.signature.this_parameter));
        }
        match verifier.function_definition_partials.get(&common.id) {
            Some(p) => Ok(p.clone_partials()),
            None => {
                let this_type = match &common.signature.this_parameter {
                    Some(tp) => {
                        proof { assert(decreases_to!(common.signature.this_parameter => common.signature.this_parameter->0)); }
                        match verifier.verify_type_expression(tp)? {
                            Some(t) => t,
                            None => Ty::Any,
                        }
                    },
                    None => match (is_static, class_ty) {
                        (false, Some(c)) => c,
                        _ => match verifier.this_type() {
                            Some(t) => t,
                            None => Ty::Any,
                        },
                    },
                };
                let ghost s2 = *verifier;
                let act = verifier.host.create_scope(ScopeKind::Activation { this_type: Some(this_type) });
                proof { lemma_step_trans(start, s2, *verifier); }
                let p = VerifierFunctionPartials::new(act, &loc);
                verifier.function_definition_partials.insert(common.id, p.clone_partials());
                Ok(p)
            },
        }
    }

    /// Resolves the parameters, the result type and the signature of a
    /// function definition, in its activation, and gives the signature to
    /// the definition's property at index `i` of scope `s`. A getter takes
    /// no parameters and a setter takes one; an asynchronous function whose
    /// result type is not a `Promise` is an error.
    fn definition_signature(verifier: &mut Subverifier, s: usize, i: usize, common: &FunctionCommon, kind: FunctionNameKind,
        loc: Location, partials: &mut VerifierFunctionPartials) -> (r: Result<(), DeferError>)
        requires
            old(verifier).scope is Some,
            old(partials).activation < old(verifier).host.scopes@.len(),
            s < old(verifier).host.scopes@.len(),
        ensures
            final(verifier).step(*old(verifier)),
            r is Ok ==> final(partials).signature is Some,
            r is Ok && old(partials).params is None && kind == FunctionNameKind::Getter
                ==> final(partials).params is Some && final(partials).params.unwrap()@.len() == 0,
            r is Ok && old(partials).params is None && kind == FunctionNameKind::Setter
                ==> final(partials).params is Some && final(partials).params.unwrap()@.len() == 1,
            params_operands_verified(*old(verifier), common.signature.parameters@)
                && (match common.signature.result_type { Some(a) => old(verifier).is_verified(a.id), None => true }) ==> r is Ok,
            r is Ok && old(partials).params is None && kind == FunctionNameKind::Getter && accepted_count(*common) != 0
                ==> reported(*old(verifier), *final(verifier), loc, DiagnosticKind::GetterMustTakeNoParameters),
            r is Ok && old(partials).params is None && kind == FunctionNameKind::Setter && accepted_count(*common) != 1
                ==> reported(*old(verifier), *final(verifier), loc, DiagnosticKind::SetterMustTakeOneParameter),
            r is Ok && old(partials).result_type is None && common.signature.result_type is None && kind != FunctionNameKind::Constructor
                ==> warned(*old(verifier), *final(verifier), loc, DiagnosticKind::ReturnValueHasNoTypeDeclaration),
            r is Ok && old(partials).result_type is None && kind == FunctionNameKind::Setter ==> match common.signature.result_type {
                Some(a) => (match final(verifier).result_of(a.id) { Some(e) => e.spec_as_type() != Some(Ty::Void), None => true })
                    ==> reported(*old(verifier), *final(verifier), loc, DiagnosticKind::SetterMustReturnVoid),
                None => true,
            },
        decreases common, 1nat,
    {
        let ghost start = *verifier;
        let ghost mut e0 = *verifier;
        let ghost mut e1 = *verifier;
        proof {
            assert(decreases_to!(*common => common.signature));
            assert(decreases_to!(common.signature => common.signature.parameters));
        }
        let act = partials.activation;
        if partials.params.is_none() {
            let r = FunctionCommonSubverifier::verify_parameters(verifier, act, &common.signature.parameters);
            let mut ps = r?;
            let ghost s5 = *verifier;
            proof { assert(ps@.len() == accepted_count(*common)); }
            if kind == FunctionNameKind::Getter && ps.len() != 0 {
                verifier.add_verify_error(&loc, DiagnosticKind::GetterMustTakeNoParameters);
                proof {
                    e0 = s5;
                    e1 = *verifier;
                    lemma_reported_by_add(s5, *verifier, loc, DiagnosticKind::GetterMustTakeNoParameters);
                }
                ps = Vec::new();
            } else if kind == FunctionNameKind::Setter && ps.len() != 1 {
                verifier.add_verify_error(&loc, DiagnosticKind::SetterMustTakeOneParameter);
                proof {
                    e0 = s5;
                    e1 = *verifier;
                    lemma_reported_by_add(s5, *verifier, loc, DiagnosticKind::SetterMustTakeOneParameter);
                }
                ps = Vec::new();
                ps.push(FunctionParam { kind: ParameterKind::Required, static_type: Ty::Any });
            }
            proof { lemma_step_trans(start, s5, *verifier); }
            partials.set_params(Some(ps));
            verifier.function_definition_partials.insert(common.id, partials.clone_partials());
        }
        let ghost s6 = *verifier;
        let ghost p6 = *partials;
        let r = Self::definition_result_type(verifier, common, loc, kind, partials);
        let ghost s7 = *verifier;
        proof { lemma_step_trans(start, s6, *verifier); }
        if r.is_err() {
            verifier.function_definition_partials.insert(common.id, partials.clone_partials());
            return Err(DeferError);
        }
        let ghost s8 = *verifier;
        let result_type = match partials.result_type() {
            Some(t) => t,
            None => Ty::Any,
        };
        let params = match &partials.params {
            Some(ps) => clone_params(ps),
            None => Vec::new(),
        };
        let param_type = if params.len() > 0 { params[0].static_type.clone() } else { Ty::Any };
        let sig = match partials.signature() {
            Some(sig) => sig,
            None => {
                let mut rt = result_type.clone();
                if kind == FunctionNameKind::Identifier && common.contains_await && promise_result_type(&rt).is_none() {
                    verifier.add_verify_error(&loc, DiagnosticKind::ReturnTypeDeclarationMustBePromise);
                    rt = Ty::PromiseOf(Box::new(Ty::Invalidation));
                }
                let ghost a1 = *verifier;
                let sig = verifier.host.create_function_type(params, rt);
                proof { lemma_step_trans(s8, a1, *verifier); }
                partials.set_signature(Some(sig.clone()));
                verifier.function_definition_partials.insert(common.id, partials.clone_partials());
                sig
            },
        };
        let ghost s9 = *verifier;
        proof { lemma_step_trans(start, s8, s9); }
        if i < verifier.host.scopes[s].properties.len() {
            Self::set_definition_signature(verifier, s, i, kind, sig, result_type, param_type);
            proof { lemma_step_trans(start, s9, *verifier); }
        }
        proof {
            lemma_step_trans(s7, s8, *verifier);
            lemma_results_stable(s7, *verifier);
            if old(partials).params is None && ((kind == FunctionNameKind::Getter && accepted_count(*common) != 0)
                || (kind == FunctionNameKind::Setter && accepted_count(*common) != 1)) {
                let k = if kind == FunctionNameKind::Getter { DiagnosticKind::GetterMustTakeNoParameters } else { DiagnosticKind::SetterMustTakeOneParameter };
                lemma_reported_widen(start, e0, e1, *verifier, loc, k);
            }
            if p6.result_type is None && common.signature.result_type is None && kind != FunctionNameKind::Constructor {
                lemma_warned_widen(start, s6, s7, *verifier, loc, DiagnosticKind::ReturnValueHasNoTypeDeclaration);
            }
            if p6.result_type is None && kind == FunctionNameKind::Setter {
                if let Some(a) = &common.signature.result_type {
                    if (match verifier.result_of(a.id) { Some(e) => e.spec_as_type() != Some(Ty::Void), None => true }) {
                        lemma_reported_widen(start, s6, s7, *verifier, loc, DiagnosticKind::SetterMustReturnVoid);
                    }
                }
            }
        }
        Ok(())
    }

    /// The last phase of a function definition: its body is verified in its
    /// activation.
    fn fn_defn_omega(verifier: &mut Subverifier, drtv: &Directive) -> (r: Result<(), DeferError>)
        requires
            old(verifier).scope is Some,
            drtv.kind is FunctionDefinition,
        ensures
            final(verifier).step(*old(verifier)),
            r is Ok ==> is_finished(*final(verifier), drtv.id),
            body_settled(*old(verifier), drtv.kind->FunctionDefinition_common.body) ==> r is Ok,
            r is Ok && definition_body_pending(*old(verifier), *drtv) ==> body_done(*final(verifier), drtv.kind->FunctionDefinition_common.body),
        decreases drtv, 0nat,
    {
        let ghost start = *verifier;
        let common = match &drtv.kind {
            DirectiveKind::FunctionDefinition { common, .. } => common,
            _ => { proof { assert(false); } return Ok(()); },
        };
        proof {
            assert(decreases_to!(*drtv => drtv.kind));
            assert(decreases_to!(drtv.kind => drtv.kind->FunctionDefinition_common));
        }
        let partials = match verifier.function_definition_partials.get(&common.id) {
            Some(p) => p.clone_partials(),
            None => {
                verifier.set_drtv_phase(drtv, VerifierPhase::Finished);
                return Ok(());
            },
        };
        let act = partials.activation;
        if act >= verifier.host.scopes.len() {
            verifier.set_drtv_phase(drtv, VerifierPhase::Finished);
            return Ok(());
        }
        let kscope = verifier.scope;
        verifier.inherit_and_enter_scope(act);
        let ghost s1 = *verifier;
        let r = FunctionCommonSubverifier::verify_function_definition_common(verifier, common, &partials);
        let ghost s2 = *verifier;
        verifier.scope = kscope;
        proof { lemma_scoped_step(start, s1, s2, *verifier); }
        r?;
        verifier.set_drtv_phase(drtv, VerifierPhase::Finished);
        Ok(())
    }
}

impl DirectiveSubverifier {
    /// Verifies a function definition by what it defines.
    pub(crate) fn verify_fn_defn(verifier: &mut Subverifier, drtv: &Directive) -> (r: Result<(), DeferError>)
        requires
            old(verifier).scope is Some,
            drtv.kind is FunctionDefinition,
        ensures
            final(verifier).step(*old(verifier)),
            is_finished(*old(verifier), drtv.id) ==> *final(verifier) == *old(verifier) && r is Ok,
            r is Ok ==> is_finished(*final(verifier), drtv.id),
            !old(verifier).phase_of_drtv@.contains_key(drtv.id) && !old(verifier).host.node_mapping@.contains_key(drtv.id)
                && no_expression_attributes(drtv.kind->FunctionDefinition_attributes@) ==> spec_defined_or_finished(*final(verifier), *drtv, r),
            !old(verifier).phase_of_drtv@.contains_key(drtv.id) && drtv.kind->FunctionDefinition_attributes@.len() == 0
                && drtv.kind->FunctionDefinition_name_kind != FunctionNameKind::Constructor
                && !old(verifier).host.node_mapping@.contains_key(drtv.id) ==> spec_alpha_outcome(*old(verifier), *final(verifier), *drtv, r),
            phase_is(*old(verifier), drtv.id, VerifierPhase::Beta) && r is Err && no_expression_attributes(drtv.kind->FunctionDefinition_attributes@)
                && signature_operands_verified(*old(verifier), drtv.kind->FunctionDefinition_common.signature)
                && !old(verifier).function_definition_partials@.contains_key(drtv.kind->FunctionDefinition_common.id)
                ==> spec_beta_reports(*old(verifier), *final(verifier), *drtv),
            phase_is(*old(verifier), drtv.id, VerifierPhase::Delta)
                ==> r is Err && phase_is(*final(verifier), drtv.id, VerifierPhase::Omega),
            phase_is(*old(verifier), drtv.id, VerifierPhase::Omega)
                && body_settled(*old(verifier), drtv.kind->FunctionDefinition_common.body)
                ==> r is Ok && is_finished(*final(verifier), drtv.id),
        decreases drtv, 2nat,
    {
        let kind = match &drtv.kind {
            DirectiveKind::FunctionDefinition { name_kind, .. } => *name_kind,
            _ => { proof { assert(false); } return Ok(()); },
        };
        match kind {
            FunctionNameKind::Identifier => Self::verify_normal_fn_defn(verifier, drtv),
            FunctionNameKind::Constructor => Self::verify_constructor_fn_defn(verifier, drtv),
            FunctionNameKind::Getter => Self::verify_getter(verifier, drtv),
            FunctionNameKind::Setter => Self::verify_setter(verifier, drtv),
        }
    }

    /// Verifies a plain function or method definition in phases: Alpha
    /// defines its method, Beta resolves its signature, Delta checks an
    /// `override`, and Omega verifies its body.
    #[verifier::spinoff_prover]
    fn verify_normal_fn_defn(verifier: &mut Subverifier, drtv: &Directive) -> (r: Result<(), DeferError>)
        requires
            old(verifier).scope is Some,
            drtv.kind is FunctionDefinition,
        ensures
            final(verifier).step(*old(verifier)),
            is_finished(*old(verifier), drtv.id) ==> *final(verifier) == *old(verifier) && r is Ok,
            r is Ok ==> is_finished(*final(verifier), drtv.id),
            !old(verifier).phase_of_drtv@.contains_key(drtv.id) && !old(verifier).host.node_mapping@.contains_key(drtv.id)
                && no_expression_attributes(drtv.kind->FunctionDefinition_attributes@) ==> spec_defined_or_finished(*final(verifier), *drtv, r),
            !old(verifier).phase_of_drtv@.contains_key(drtv.id) && drtv.kind->FunctionDefinition_attributes@.len() == 0
                && drtv.kind->FunctionDefinition_name_kind != FunctionNameKind::Constructor
                && !old(verifier).host.node_mapping@.contains_key(drtv.id) ==> spec_alpha_outcome(*old(verifier), *final(verifier), *drtv, r),
            !old(verifier).phase_of_drtv@.contains_key(drtv.id) && no_expression_attributes(drtv.kind->FunctionDefinition_attributes@)
                && r is Err && external_not_native_or_abstract(*drtv) ==> reported(*old(verifier), *final(verifier), drtv.kind->FunctionDefinition_name_location,
                    DiagnosticKind::ExternalFunctionMustBeNativeOrAbstract),
            phase_is(*old(verifier), drtv.id, VerifierPhase::Beta) && no_expression_attributes(drtv.kind->FunctionDefinition_attributes@)
                && signature_operands_verified(*old(verifier), drtv.kind->FunctionDefinition_common.signature) ==> {
                ||| r is Ok && is_finished(*final(verifier), drtv.id)
                ||| r is Err && phase_is(*final(verifier), drtv.id, VerifierPhase::Delta)
            },
            phase_is(*old(verifier), drtv.id, VerifierPhase::Beta) && r is Err && no_expression_attributes(drtv.kind->FunctionDefinition_attributes@)
                && signature_operands_verified(*old(verifier), drtv.kind->FunctionDefinition_common.signature)
                && !old(verifier).function_definition_partials@.contains_key(drtv.kind->FunctionDefinition_common.id)
                ==> spec_beta_reports(*old(verifier), *final(verifier), *drtv),
            phase_is(*old(verifier), drtv.id, VerifierPhase::Delta)
                ==> r is Err && phase_is(*final(verifier), drtv.id, VerifierPhase::Omega),
            phase_is(*old(verifier), drtv.id, VerifierPhase::Omega)
                && body_settled(*old(verifier), drtv.kind->FunctionDefinition_common.body)
                ==> r is Ok && is_finished(*final(verifier), drtv.id),
            phase_is(*old(verifier), drtv.id, VerifierPhase::Omega) && r is Ok && definition_body_pending(*old(verifier), *drtv)
                ==> body_done(*final(verifier), drtv.kind->FunctionDefinition_common.body),
            phase_is(*old(verifier), drtv.id, VerifierPhase::Delta) ==> match spec_definition_slot(*old(verifier), drtv.id) {
                Some((sc, i)) => has_override(drtv.kind->FunctionDefinition_attributes@) ==> match spec_override_error(old(verifier).host, sc, i,
                    drtv.kind->FunctionDefinition_name@) {
                    Some(k) => reported(*old(verifier), *final(verifier), drtv.kind->FunctionDefinition_name_location, k),
                    None => true,
                },
                None => true,
            },
        decreases drtv, 1nat,
    {
        let ghost start = *verifier;
        let phase = verifier.lazy_init_drtv_phase(drtv, VerifierPhase::Alpha);
        let ghost s0 = *verifier;
        let r = match phase {
            VerifierPhase::Finished => return Ok(()),
            VerifierPhase::Alpha => Self::fn_defn_alpha(verifier, drtv),
            VerifierPhase::Beta => Self::fn_defn_beta(verifier, drtv),
            VerifierPhase::Delta => {
                let (attributes, name, loc) = match &drtv.kind {
                    DirectiveKind::FunctionDefinition { attributes, name, name_location, .. } => (attributes, name, *name_location),
                    _ => { proof { assert(false); } return Ok(()); },
                };
                let ghost d0 = *verifier;
                if let Some((s, i)) = definition_slot(verifier, drtv.id) {
                    Self::ensure_overrides(verifier, attributes, s, i, name, loc);
                }
                let ghost d1 = *verifier;
                verifier.set_drtv_phase(drtv, VerifierPhase::Omega);
                proof {
                    if let Some((sc, i)) = spec_definition_slot(d0, drtv.id) {
                        if has_override(attributes@) {
                            if let Some(k) = spec_override_error(d0.host, sc, i, name@) {
                                lemma_reported_by_add(d0, d1, loc, k);
                                lemma_reported_widen(start, d0, d1, *verifier, loc, k);
                            }
                        }
                    }
                }
                Err(DeferError)
            },
            _ => Self::fn_defn_omega(verifier, drtv),
        };
        proof {
            lemma_step_trans(start, s0, *verifier);
            if phase == VerifierPhase::Alpha && no_expression_attributes(drtv.kind->FunctionDefinition_attributes@)
                && r is Err && external_not_native_or_abstract(*drtv) {
                lemma_reported_widen(start, s0, *verifier, *verifier, drtv.kind->FunctionDefinition_name_location,
                    DiagnosticKind::ExternalFunctionMustBeNativeOrAbstract);
            }
        }
        r
    }

    /// Verifies a constructor definition in phases: Alpha defines it in its
    /// class, Beta resolves its signature, Delta checks that it calls the
    /// constructor of the base class where that one takes required
    /// arguments, and Omega verifies its body.
    #[verifier::spinoff_prover]
    fn verify_constructor_fn_defn(verifier: &mut Subverifier, drtv: &Directive) -> (r: Result<(), DeferError>)
        requires
            old(verifier).scope is Some,
            drtv.kind is FunctionDefinition,
        ensures
            final(verifier).step(*old(verifier)),
            is_finished(*old(verifier), drtv.id) ==> *final(verifier) == *old(verifier) && r is Ok,
            r is Ok ==> is_finished(*final(verifier), drtv.id),
            !old(verifier).phase_of_drtv@.contains_key(drtv.id) && !old(verifier).host.node_mapping@.contains_key(drtv.id)
                && no_expression_attributes(drtv.kind->FunctionDefinition_attributes@) ==> spec_defined_or_finished(*final(verifier), *drtv, r),
            !old(verifier).phase_of_drtv@.contains_key(drtv.id) && no_expression_attributes(drtv.kind->FunctionDefinition_attributes@)
                && r is Err && external_not_native_or_abstract(*drtv) ==> reported(*old(verifier), *final(verifier), drtv.kind->FunctionDefinition_name_location,
                    DiagnosticKind::ExternalFunctionMustBeNativeOrAbstract),
            phase_is(*old(verifier), drtv.id, VerifierPhase::Beta) && no_expression_attributes(drtv.kind->FunctionDefinition_attributes@)
                && signature_operands_verified(*old(verifier), drtv.kind->FunctionDefinition_common.signature) ==> {
                ||| r is Ok && is_finished(*final(verifier), drtv.id)
                ||| r is Err && phase_is(*final(verifier), drtv.id, VerifierPhase::Delta)
            },
            phase_is(*old(verifier), drtv.id, VerifierPhase::Beta) && r is Err && no_expression_attributes(drtv.kind->FunctionDefinition_attributes@)
                && signature_operands_verified(*old(verifier), drtv.kind->FunctionDefinition_common.signature)
                && !old(verifier).function_definition_partials@.contains_key(drtv.kind->FunctionDefinition_common.id)
                ==> spec_beta_reports(*old(verifier), *final(verifier), *drtv),
            phase_is(*old(verifier), drtv.id, VerifierPhase::Delta)
                ==> r is Err && phase_is(*final(verifier), drtv.id, VerifierPhase::Omega),
            phase_is(*old(verifier), drtv.id, VerifierPhase::Omega)
                && body_settled(*old(verifier), drtv.kind->FunctionDefinition_common.body)
                ==> r is Ok && is_finished(*final(verifier), drtv.id),
            phase_is(*old(verifier), drtv.id, VerifierPhase::Omega) && r is Ok && definition_body_pending(*old(verifier), *drtv)
                ==> body_done(*final(verifier), drtv.kind->FunctionDefinition_common.body),
            phase_is(*old(verifier), drtv.id, VerifierPhase::Delta) ==> match spec_definition_slot(*old(verifier), drtv.id) {
                Some((sc, _)) => spec_base_constructor_requires_arguments(old(verifier).host, sc)
                    && !spec_super_found(drtv.kind->FunctionDefinition_common) ==> reported(*old(verifier), *final(verifier),
                        drtv.kind->FunctionDefinition_name_location, DiagnosticKind::ConstructorMustContainSuperStatement),
                None => true,
            },
        decreases drtv, 1nat,
    {
        let ghost start = *verifier;
        let phase = verifier.lazy_init_drtv_phase(drtv, VerifierPhase::Alpha);
        let ghost s0 = *verifier;
        let r = match phase {
            VerifierPhase::Finished => return Ok(()),
            VerifierPhase::Alpha => Self::fn_defn_alpha(verifier, drtv),
            VerifierPhase::Beta => Self::fn_defn_beta(verifier, drtv),
            VerifierPhase::Delta => {
                let (loc, common) = match &drtv.kind {
                    DirectiveKind::FunctionDefinition { name_location, common, .. } => (*name_location, common),
                    _ => { proof { assert(false); } return Ok(()); },
                };
                let ghost d0 = *verifier;
                if let Some((s, _)) = definition_slot(verifier, drtv.id) {
                    Self::ensure_super_statement(verifier, s, common, loc);
                }
                let ghost d1 = *verifier;
                verifier.set_drtv_phase(drtv, VerifierPhase::Omega);
                proof {
                    if let Some((sc, _)) = spec_definition_slot(d0, drtv.id) {
                        if spec_base_constructor_requires_arguments(d0.host, sc) && !spec_super_found(*common) {
                            lemma_reported_by_add(d0, d1, loc, DiagnosticKind::ConstructorMustContainSuperStatement);
                            lemma_reported_widen(start, d0, d1, *verifier, loc, DiagnosticKind::ConstructorMustContainSuperStatement);
                        }
                    }
                }
                Err(DeferError)
            },
            _ => Self::fn_defn_omega(verifier, drtv),
        };
        proof {
            lemma_step_trans(start, s0, *verifier);
            if phase == VerifierPhase::Alpha && no_expression_attributes(drtv.kind->FunctionDefinition_attributes@)
                && r is Err && external_not_native_or_abstract(*drtv) {
                lemma_reported_widen(start, s0, *verifier, *verifier, drtv.kind->FunctionDefinition_name_location,
                    DiagnosticKind::ExternalFunctionMustBeNativeOrAbstract);
            }
        }
        r
    }

    /// Verifies a getter definition in phases: Alpha defines it on its
    /// property of getters and setters, Beta resolves its signature, Delta
    /// checks that it returns its property's type and an `override`, and
    /// Omega verifies its body.
    #[verifier::spinoff_prover]
    fn verify_getter(verifier: &mut Subverifier, drtv: &Directive) -> (r: Result<(), DeferError>)
        requires
            old(verifier).scope is Some,
            drtv.kind is FunctionDefinition,
        ensures
            final(verifier).step(*old(verifier)),
            is_finished(*old(verifier), drtv.id) ==> *final(verifier) == *old(verifier) && r is Ok,
            r is Ok ==> is_finished(*final(verifier), drtv.id),
            !old(verifier).phase_of_drtv@.contains_key(drtv.id) && !old(verifier).host.node_mapping@.contains_key(drtv.id)
                && no_expression_attributes(drtv.kind->FunctionDefinition_attributes@) ==> spec_defined_or_finished(*final(verifier), *drtv, r),
            !old(verifier).phase_of_drtv@.contains_key(drtv.id) && drtv.kind->FunctionDefinition_attributes@.len() == 0
                && drtv.kind->FunctionDefinition_name_kind != FunctionNameKind::Constructor
                && !old(verifier).host.node_mapping@.contains_key(drtv.id) ==> spec_alpha_outcome(*old(verifier), *final(verifier), *drtv, r),
            !old(verifier).phase_of_drtv@.contains_key(drtv.id) && no_expression_attributes(drtv.kind->FunctionDefinition_attributes@)
                && r is Err && external_not_native_or_abstract(*drtv) ==> reported(*old(verifier), *final(verifier), drtv.kind->FunctionDefinition_name_location,
                    DiagnosticKind::ExternalFunctionMustBeNativeOrAbstract),
            phase_is(*old(verifier), drtv.id, VerifierPhase::Beta) && no_expression_attributes(drtv.kind->FunctionDefinition_attributes@)
                && signature_operands_verified(*old(verifier), drtv.kind->FunctionDefinition_common.signature) ==> {
                ||| r is Ok && is_finished(*final(verifier), drtv.id)
                ||| r is Err && phase_is(*final(verifier), drtv.id, VerifierPhase::Delta)
            },
            phase_is(*old(verifier), drtv.id, VerifierPhase::Beta) && r is Err && no_expression_attributes(drtv.kind->FunctionDefinition_attributes@)
                && signature_operands_verified(*old(verifier), drtv.kind->FunctionDefinition_common.signature)
                && !old(verifier).function_definition_partials@.contains_key(drtv.kind->FunctionDefinition_common.id)
                ==> spec_beta_reports(*old(verifier), *final(verifier), *drtv),
            phase_is(*old(verifier), drtv.id, VerifierPhase::Delta)
                ==> r is Err && phase_is(*final(verifier), drtv.id, VerifierPhase::Omega),
            phase_is(*old(verifier), drtv.id, VerifierPhase::Omega)
                && body_settled(*old(verifier), drtv.kind->FunctionDefinition_common.body)
                ==> r is Ok && is_finished(*final(verifier), drtv.id),
            phase_is(*old(verifier), drtv.id, VerifierPhase::Omega) && r is Ok && definition_body_pending(*old(verifier), *drtv)
                ==> body_done(*final(verifier), drtv.kind->FunctionDefinition_common.body),
            phase_is(*old(verifier), drtv.id, VerifierPhase::Delta) ==> match spec_definition_slot(*old(verifier), drtv.id) {
                Some((sc, i)) => spec_accessor_type_mismatch(old(verifier).host, sc, i, FunctionNameKind::Getter)
                    ==> reported(*old(verifier), *final(verifier), drtv.kind->FunctionDefinition_name_location, DiagnosticKind::GetterMustReturnDataType),
                None => true,
            },
            phase_is(*old(verifier), drtv.id, VerifierPhase::Delta) ==> match spec_definition_slot(*old(verifier), drtv.id) {
                Some((sc, i)) => has_override(drtv.kind->FunctionDefinition_attributes@) ==> match spec_override_error(old(verifier).host, sc, i,
                    drtv.kind->FunctionDefinition_name@) {
                    Some(k) => reported(*old(verifier), *final(verifier), drtv.kind->FunctionDefinition_name_location, k),
                    None => true,
                },
                None => true,
            },
        decreases drtv, 1nat,
    {
        let ghost start = *verifier;
        let phase = verifier.lazy_init_drtv_phase(drtv, VerifierPhase::Alpha);
        let ghost s0 = *verifier;
        let r = match phase {
            VerifierPhase::Finished => return Ok(()),
            VerifierPhase::Alpha => Self::fn_defn_alpha(verifier, drtv),
            VerifierPhase::Beta => Self::fn_defn_beta(verifier, drtv),
            VerifierPhase::Delta => {
                let (attributes, name, loc) = match &drtv.kind {
                    DirectiveKind::FunctionDefinition { attributes, name, name_location, .. } => (attributes, name, *name_location),
                    _ => { proof { assert(false); } return Ok(()); },
                };
                let ghost d0 = *verifier;
                if let Some((s, i)) = definition_slot(verifier, drtv.id) {
                    Self::ensure_accessor_type(verifier, s, i, FunctionNameKind::Getter, loc);
                    let ghost s1 = *verifier;
                    Self::ensure_overrides(verifier, attributes, s, i, name, loc);
                    proof {
                        assert(s1.host.scopes == d0.host.scopes && s1.host.types == d0.host.types);
                        assert(spec_override_error(s1.host, s, i, name@) == spec_override_error(d0.host, s, i, name@));
                        if has_override(attributes@) {
                            if let Some(k) = spec_override_error(d0.host, s, i, name@) {
                                lemma_reported_by_add(s1, *verifier, loc, k);
                                lemma_reported_widen(d0, s1, *verifier, *verifier, loc, k);
                            }
                        }
                        lemma_step_trans(s0, s1, *verifier);
                        if spec_accessor_type_mismatch(d0.host, s, i, FunctionNameKind::Getter) {
                            lemma_reported_by_add(d0, s1, loc, DiagnosticKind::GetterMustReturnDataType);
                            lemma_reported_widen(d0, d0, s1, *verifier, loc, DiagnosticKind::GetterMustReturnDataType);
                        }
                    }
                }
                let ghost d1 = *verifier;
                verifier.set_drtv_phase(drtv, VerifierPhase::Omega);
                proof {
                    if let Some((sc, i)) = spec_definition_slot(d0, drtv.id) {
                        if spec_accessor_type_mismatch(d0.host, sc, i, FunctionNameKind::Getter) {
                            lemma_reported_widen(start, d0, d1, *verifier, loc, DiagnosticKind::GetterMustReturnDataType);
                        }
                        if has_override(attributes@) {
                            if let Some(k) = spec_override_error(d0.host, sc, i, name@) {
                                lemma_reported_widen(start, d0, d1, *verifier, loc, k);
                            }
                        }
                    }
                }
                Err(DeferError)
            },
            _ => Self::fn_defn_omega(verifier, drtv),
        };
        proof {
            lemma_step_trans(start, s0, *verifier);
            if phase == VerifierPhase::Alpha && no_expression_attributes(drtv.kind->FunctionDefinition_attributes@)
                && r is Err && external_not_native_or_abstract(*drtv) {
                lemma_reported_widen(start, s0, *verifier, *verifier, drtv.kind->FunctionDefinition_name_location,
                    DiagnosticKind::ExternalFunctionMustBeNativeOrAbstract);
            }
        }
        r
    }

    /// Verifies a setter definition in phases: Alpha defines it on its
    /// property of getters and setters, Beta resolves its signature, Delta
    /// checks that it takes its property's type and an `override`, and
    /// Omega verifies its body.
    #[verifier::spinoff_prover]
    fn verify_setter(verifier: &mut Subverifier, drtv: &Directive) -> (r: Result<(), DeferError>)
        requires
            old(verifier).scope is Some,
            drtv.kind is FunctionDefinition,
        ensures
            final(verifier).step(*old(verifier)),
            is_finished(*old(verifier), drtv.id) ==> *final(verifier) == *old(verifier) && r is Ok,
            r is Ok ==> is_finished(*final(verifier), drtv.id),
            !old(verifier).phase_of_drtv@.contains_key(drtv.id) && !old(verifier).host.node_mapping@.contains_key(drtv.id)
                && no_expression_attributes(drtv.kind->FunctionDefinition_attributes@) ==> spec_defined_or_finished(*final(verifier), *drtv, r),
            !old(verifier).phase_of_drtv@.contains_key(drtv.id) && drtv.kind->FunctionDefinition_attributes@.len() == 0
                && drtv.kind->FunctionDefinition_name_kind != FunctionNameKind::Constructor
                && !old(verifier).host.node_mapping@.contains_key(drtv.id) ==> spec_alpha_outcome(*old(verifier), *final(verifier), *drtv, r),
            !old(verifier).phase_of_drtv@.contains_key(drtv.id) && no_expression_attributes(drtv.kind->FunctionDefinition_attributes@)
                && r is Err && external_not_native_or_abstract(*drtv) ==> reported(*old(verifier), *final(verifier), drtv.kind->FunctionDefinition_name_location,
                    DiagnosticKind::ExternalFunctionMustBeNativeOrAbstract),
            phase_is(*old(verifier), drtv.id, VerifierPhase::Beta) && no_expression_attributes(drtv.kind->FunctionDefinition_attributes@)
                && signature_operands_verified(*old(verifier), drtv.kind->FunctionDefinition_common.signature) ==> {
                ||| r is Ok && is_finished(*final(verifier), drtv.id)
                ||| r is Err && phase_is(*final(verifier), drtv.id, VerifierPhase::Delta)
            },
            phase_is(*old(verifier), drtv.id, VerifierPhase::Beta) && r is Err && no_expression_attributes(drtv.kind->FunctionDefinition_attributes@)
                && signature_operands_verified(*old(verifier), drtv.kind->FunctionDefinition_common.signature)
                && !old(verifier).function_definition_partials@.contains_key(drtv.kind->FunctionDefinition_common.id)
                ==> spec_beta_reports(*old(verifier), *final(verifier), *drtv),
            phase_is(*old(verifier), drtv.id, VerifierPhase::Delta)
                ==> r is Err && phase_is(*final(verifier), drtv.id, VerifierPhase::Omega),
            phase_is(*old(verifier), drtv.id, VerifierPhase::Omega)
                && body_settled(*old(verifier), drtv.kind->FunctionDefinition_common.body)
                ==> r is Ok && is_finished(*final(verifier), drtv.id),
            phase_is(*old(verifier), drtv.id, VerifierPhase::Omega) && r is Ok && definition_body_pending(*old(verifier), *drtv)
                ==> body_done(*final(verifier), drtv.kind->FunctionDefinition_common.body),
            phase_is(*old(verifier), drtv.id, VerifierPhase::Delta) ==> match spec_definition_slot(*old(verifier), drtv.id) {
                Some((sc, i)) => spec_accessor_type_mismatch(old(verifier).host, sc, i, FunctionNameKind::Setter)
                    ==> reported(*old(verifier), *final(verifier), drtv.kind->FunctionDefinition_name_location, DiagnosticKind::SetterMustTakeDataType),
                None => true,
            },
            phase_is(*old(verifier), drtv.id, VerifierPhase::Delta) ==> match spec_definition_slot(*old(verifier), drtv.id) {
                Some((sc, i)) => has_override(drtv.kind->FunctionDefinition_attributes@) ==> match spec_override_error(old(verifier).host, sc, i,
                    drtv.kind->FunctionDefinition_name@) {
                    Some(k) => reported(*old(verifier), *final(verifier), drtv.kind->FunctionDefinition_name_location, k),
                    None => true,
                },
                None => true,
            },
        decreases drtv, 1nat,
    {
        let ghost start = *verifier;
        let phase = verifier.lazy_init_drtv_phase(drtv, VerifierPhase::Alpha);
        let ghost s0 = *verifier;
        let r = match phase {
            VerifierPhase::Finished => return Ok(()),
            VerifierPhase::Alpha => Self::fn_defn_alpha(verifier, drtv),
            VerifierPhase::Beta => Self::fn_defn_beta(verifier, drtv),
            VerifierPhase::Delta => {
                let (attributes, name, loc) = match &drtv.kind {
                    DirectiveKind::FunctionDefinition { attributes, name, name_location, .. } => (attributes, name, *name_location),
                    _ => { proof { assert(false); } return Ok(()); },
                };
                let ghost d0 = *verifier;
                if let Some((s, i)) = definition_slot(verifier, drtv.id) {
                    Self::ensure_accessor_type(verifier, s, i, FunctionNameKind::Setter, loc);
                    let ghost s1 = *verifier;
                    Self::ensure_overrides(verifier, attributes, s, i, name, loc);
                    proof {
                        assert(s1.host.scopes == d0.host.scopes && s1.host.types == d0.host.types);
                        assert(spec_override_error(s1.host, s, i, name@) == spec_override_error(d0.host, s, i, name@));
                        if has_override(attributes@) {
                            if let Some(k) = spec_override_error(d0.host, s, i, name@) {
                                lemma_reported_by_add(s1, *verifier, loc, k);
                                lemma_reported_widen(d0, s1, *verifier, *verifier, loc, k);
                            }
                        }
                        lemma_step_trans(s0, s1, *verifier);
                        if spec_accessor_type_mismatch(d0.host, s, i, FunctionNameKind::Setter) {
                            lemma_reported_by_add(d0, s1, loc, DiagnosticKind::SetterMustTakeDataType);
                            lemma_reported_widen(d0, d0, s1, *verifier, loc, DiagnosticKind::SetterMustTakeDataType);
                        }
                    }
                }
                let ghost d1 = *verifier;
                verifier.set_drtv_phase(drtv, VerifierPhase::Omega);
                proof {
                    if let Some((sc, i)) = spec_definition_slot(d0, drtv.id) {
                        if spec_accessor_type_mismatch(d0.host, sc, i, FunctionNameKind::Setter) {
                            lemma_reported_widen(start, d0, d1, *verifier, loc, DiagnosticKind::SetterMustTakeDataType);
                        }
                        if has_override(attributes@) {
                            if let Some(k) = spec_override_error(d0.host, sc, i, name@) {
                                lemma_reported_widen(start, d0, d1, *verifier, loc, k);
                            }
                        }
                    }
                }
                Err(DeferError)
            },
            _ => Self::fn_defn_omega(verifier, drtv),
        };
        proof {
            lemma_step_trans(start, s0, *verifier);
            if phase == VerifierPhase::Alpha && no_expression_attributes(drtv.kind->FunctionDefinition_attributes@)
                && r is Err && external_not_native_or_abstract(*drtv) {
                lemma_reported_widen(start, s0, *verifier, *verifier, drtv.kind->FunctionDefinition_name_location,
                    DiagnosticKind::ExternalFunctionMustBeNativeOrAbstract);
            }
        }
        r
    }
}
} // verus!
