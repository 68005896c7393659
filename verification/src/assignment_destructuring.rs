//! Verification of destructuring patterns on the left of an assignment.
use vstd::prelude::*;
use crate::ast::{Expression, ExpressionKind, Element, InitializerField, FieldName, QualifiedIdentifier, QualifiedIdentifierIdentifier, Location, Operator};
use crate::diagnostics::DiagnosticKind;
use crate::semantics::{Ty, TypeDef, Entity, escape_of_non_nullable, spec_includes_null, spec_includes_undefined, includes_null, includes_undefined, array_element_type, vector_element_type, array_type_of_any};
use crate::subverifier::{Subverifier, DeferError, default_context, spec_post_process};
use crate::resolution::{PropertyLookupKey, PropertyLookupError, spec_lookup_in_scope_chain, spec_implicit};
use crate::exp::{ExpSubverifier, lemma_step_trans, lemma_results_stable};
use crate::subverifier::lemma_keeps_error;

verus! {

broadcast use vstd::std_specs::hash::group_hash_axioms;

/// The value `v!`: its type made non-nullable where it includes `null` or `undefined`.
pub open spec fn spec_non_null_value(v: Entity) -> Entity {
    let st = v.spec_static_type();
    Entity::Value { ty: if spec_includes_null(st) || spec_includes_undefined(st) { Ty::NonNullable(Box::new(st)) } else { st } }
}

fn non_null_value(v: &Entity) -> (r: Entity)
    ensures
        r == spec_non_null_value(*v),
{
    let st = v.static_type();
    if includes_null(&st) || includes_undefined(&st) {
        Entity::Value { ty: Ty::NonNullable(Box::new(st)) }
    } else {
        Entity::Value { ty: st }
    }
}

/// What an unqualified identifier pattern `name` assigning a value `init`
/// resolves to: the variable it names, converted to the type of `init`;
/// `None` when the name is undefined, ambiguous or unrelated to `init`.
pub open spec fn spec_identifier_pattern_result(v: Subverifier, name: String, init: Entity) -> Option<Entity> {
    match spec_lookup_in_scope_chain(v.host, v.scope, PropertyLookupKey::LocalName(name)) {
        Ok(Some(e)) => spec_implicit(v.host.types@, spec_post_process(v.host.types@, e, VerifierExpressionContextDefault::value()),
            init.spec_static_type()),
        _ => None,
    }
}

/// The default expression context, as a value for specifications.
pub struct VerifierExpressionContextDefault;

impl VerifierExpressionContextDefault {
    pub open spec fn value() -> crate::subverifier::VerifierExpressionContext {
        crate::subverifier::VerifierExpressionContext::spec_default()
    }
}

/// What verifying the pattern `p` gives once it succeeds: an identifier
/// (but an attribute), array, object or non-null pattern is mapped.
pub open spec fn pattern_done(v: Subverifier, p: Expression) -> bool {
    match p.kind {
        ExpressionKind::QualifiedIdentifier(id) => !id.attribute ==> v.is_verified(p.id),
        ExpressionKind::ArrayLiteral { .. } | ExpressionKind::ObjectInitializer { .. } => v.is_verified(p.id),
        ExpressionKind::Unary { operator, .. } => operator == Operator::NonNull ==> v.is_verified(p.id),
        _ => true,
    }
}

/// Whether `p` is a pattern that verification leaves as it is: one already
/// verified, an attribute identifier, or an expression that is no pattern.
pub open spec fn pattern_settled(v: Subverifier, p: Expression) -> bool {
    match p.kind {
        ExpressionKind::QualifiedIdentifier(id) => id.attribute || v.is_verified(p.id),
        ExpressionKind::ArrayLiteral { .. } | ExpressionKind::ObjectInitializer { .. } => v.is_verified(p.id),
        ExpressionKind::Unary { operator, .. } => operator == Operator::NonNull ==> v.is_verified(p.id),
        _ => true,
    }
}

/// What verifying a field of an object pattern gives once it succeeds: a
/// field's node is mapped, or an error is reported at its name; a rest
/// field is reported and its pattern is mapped.
pub open spec fn object_field_done(v: Subverifier, f: InitializerField) -> bool {
    match f {
        InitializerField::Field { id, name_location, .. } => v.is_verified(id) || v.spec_has_error_at(name_location),
        InitializerField::Rest(p, loc) => pattern_done(v, *p) && v.spec_has_error_at(loc),
    }
}

/// Whether verifying a field of an object pattern leaves it as it is,
/// or succeeds at once: a field already verified, or one whose name is
/// verified, whose sub-pattern is settled and whose initial value can be
/// looked into; or a rest field whose pattern is settled.
pub open spec fn object_field_settled(v: Subverifier, f: InitializerField, init: Entity) -> bool {
    match f {
        InitializerField::Field { id, name, value, .. } => v.is_verified(id) || {
            &&& field_name_settled(v, name)
            &&& !crate::resolution::spec_lookup_defers(init)
            &&& match value {
                Some(p) => pattern_settled(v, *p),
                None => false,
            }
        },
        InitializerField::Rest(p, _) => pattern_settled(v, *p),
    }
}

/// The expressions that name a field have been verified.
pub open spec fn field_name_settled(v: Subverifier, name: FieldName) -> bool {
    match name {
        FieldName::Identifier(q) => crate::exp_names::qid_operands_verified(v, q),
        FieldName::Brackets(e) => v.is_verified(e.id),
        FieldName::NumericLiteral(e) => v.is_verified(e.id),
        FieldName::StringLiteral(e) => v.is_verified(e.id),
    }
}

proof fn lemma_field_done_stable(a: Subverifier, b: Subverifier, f: InitializerField)
    requires
        object_field_done(a, f),
        b.progress(a),
    ensures
        object_field_done(b, f),
{
    match f {
        InitializerField::Field { id, name_location, .. } => {
            if a.spec_has_error_at(name_location) { lemma_keeps_error(a, b, name_location); }
        },
        InitializerField::Rest(p, loc) => {
            lemma_keeps_error(a, b, loc);
            assert(a.is_verified(p.id) ==> b.is_verified(p.id));
        },
    }
}

proof fn lemma_field_settled_stable(a: Subverifier, b: Subverifier, f: InitializerField, init: Entity)
    requires
        object_field_settled(a, f, init),
        b.progress(a),
    ensures
        object_field_settled(b, f, init),
{
    match f {
        InitializerField::Field { id, name, value, .. } => {
            match name {
                FieldName::Identifier(q) => {
                    if let Some(qq) = q.qualifier { assert(a.is_verified(qq.id) ==> b.is_verified(qq.id)); }
                    if let QualifiedIdentifierIdentifier::Brackets(e) = q.id { assert(a.is_verified(e.id) ==> b.is_verified(e.id)); }
                },
                FieldName::Brackets(e) => { assert(a.is_verified(e.id) ==> b.is_verified(e.id)); },
                FieldName::NumericLiteral(e) => { assert(a.is_verified(e.id) ==> b.is_verified(e.id)); },
                FieldName::StringLiteral(e) => { assert(a.is_verified(e.id) ==> b.is_verified(e.id)); },
            }
            if let Some(p) = value { assert(a.is_verified(p.id) ==> b.is_verified(p.id)); }
        },
        InitializerField::Rest(p, _) => { assert(a.is_verified(p.id) ==> b.is_verified(p.id)); },
    }
}

/// The sub-pattern of an element of an array pattern, if it has one.
pub open spec fn element_pattern(e: Element) -> Option<Expression> {
    match e {
        Element::Expression(p) => Some(p),
        Element::Rest(p, _) => Some(p),
        Element::Elision => None,
    }
}

/// Every sub-pattern of `elements` is done in `v`.
pub open spec fn elements_done(v: Subverifier, elements: Seq<Element>) -> bool {
    forall|i: int| 0 <= i < elements.len() ==> match element_pattern(#[trigger] elements[i]) {
        Some(p) => pattern_done(v, p),
        None => true,
    }
}

/// Every sub-pattern of `elements` is settled in `v`.
pub open spec fn elements_settled(v: Subverifier, elements: Seq<Element>) -> bool {
    forall|i: int| 0 <= i < elements.len() ==> match element_pattern(#[trigger] elements[i]) {
        Some(p) => pattern_settled(v, p),
        None => true,
    }
}

/// Verification of assignment destructuring patterns.
pub struct AssignmentDestructuringSubverifier;

impl AssignmentDestructuringSubverifier {
    /// Verifies a pattern that is assigned `init`, which may be a value or
    /// an invalidation.
    pub fn verify_pattern(verifier: &mut Subverifier, pattern: &Expression, init: &Entity) -> (r: Result<(), DeferError>)
        requires
            old(verifier).scope is Some,
        ensures
            final(verifier).step(*old(verifier)),
            r is Ok ==> match pattern.kind {
                ExpressionKind::QualifiedIdentifier(id) => !id.attribute ==> final(verifier).host.node_mapping@.contains_key(pattern.id),
                ExpressionKind::ArrayLiteral { .. } | ExpressionKind::ObjectInitializer { .. } =>
                    final(verifier).host.node_mapping@.contains_key(pattern.id),
                ExpressionKind::Unary { operator, .. } => operator == Operator::NonNull
                    ==> final(verifier).host.node_mapping@.contains_key(pattern.id),
                _ => true,
            },
            r is Ok ==> pattern_done(*final(verifier), *pattern),
            pattern_settled(*old(verifier), *pattern) ==> r is Ok && *final(verifier) == *old(verifier),
            pattern.kind is QualifiedIdentifier && !(*init is Unresolved)
                && crate::exp_names::qid_operands_verified(*old(verifier), pattern.kind->QualifiedIdentifier_0) ==> r is Ok,
        decreases pattern, 2nat,
    {
        match &pattern.kind {
            ExpressionKind::QualifiedIdentifier(_) => Self::verify_identifier_pattern(verifier, pattern, init),
            ExpressionKind::ObjectInitializer { .. } => Self::verify_object_pattern(verifier, pattern, init),
            ExpressionKind::ArrayLiteral { .. } => Self::verify_array_pattern(verifier, pattern, init),
            ExpressionKind::Unary { operator, .. } => {
                if *operator == Operator::NonNull {
                    Self::verify_non_null_pattern(verifier, pattern, init)
                } else {
                    Ok(())
                }
            },
            _ => Ok(()),
        }
    }

    /// Verifies an identifier pattern: the variable it names receives `init`.
    pub fn verify_identifier_pattern(verifier: &mut Subverifier, pattern: &Expression, init: &Entity) -> (r: Result<(), DeferError>)
        requires
            old(verifier).scope is Some,
            pattern.kind is QualifiedIdentifier,
        ensures
            final(verifier).step(*old(verifier)),
            old(verifier).host.node_mapping@.contains_key(pattern.id) || pattern.kind->QualifiedIdentifier_0.attribute
                ==> *final(verifier) == *old(verifier) && r is Ok,
            r is Ok && !pattern.kind->QualifiedIdentifier_0.attribute ==> final(verifier).host.node_mapping@.contains_key(pattern.id),
            r is Ok && !old(verifier).host.node_mapping@.contains_key(pattern.id) && !pattern.kind->QualifiedIdentifier_0.attribute
                && pattern.kind->QualifiedIdentifier_0.qualifier is None
                ==> match pattern.kind->QualifiedIdentifier_0.id {
                    QualifiedIdentifierIdentifier::Id(name, _) => final(verifier).result_of(pattern.id)
                        == spec_identifier_pattern_result(*old(verifier), name, *init),
                    _ => true,
                },
            !(*init is Unresolved) && crate::exp_names::qid_operands_verified(*old(verifier), pattern.kind->QualifiedIdentifier_0)
                ==> r is Ok,
        decreases pattern, 1nat,
    {
        let id = match &pattern.kind {
            ExpressionKind::QualifiedIdentifier(id) => id,
            _ => { proof { assert(false); } return Ok(()); },
        };
        if verifier.host.node_mapping.contains_key(&pattern.id) || id.attribute {
            return Ok(());
        }
        if matches!(init, Entity::Unresolved) {
            return Err(DeferError);
        }
        let init_st = init.static_type();
        let ghost start = *verifier;
        proof { assert(decreases_to!(*pattern => pattern.kind)); }
        let qn = ExpSubverifier::verify_qualified_identifier(verifier, id)?;
        let ghost s1 = *verifier;
        let key = match qn {
            None => {
                verifier.map_node(pattern.id, None);
                proof { lemma_step_trans(start, s1, *verifier); }
                return Ok(());
            },
            Some((_, key)) => key,
        };
        let (kind, found) = match verifier.host.lookup_in_scope_chain(verifier.scope, &key) {
            Ok(Some(e)) => (None, Some(e)),
            Ok(None) => (Some(DiagnosticKind::UndefinedProperty), None),
            Err(PropertyLookupError::Defer) => return Err(DeferError),
            Err(PropertyLookupError::AmbiguousReference(_)) => (Some(DiagnosticKind::AmbiguousReference), None),
            Err(PropertyLookupError::VoidBase) => (Some(DiagnosticKind::AccessOfVoid), None),
            Err(PropertyLookupError::NullableObject) => (Some(DiagnosticKind::AccessOfNullable), None),
        };
        let e = match found {
            None => {
                if let Some(kind) = kind {
                    verifier.add_verify_error(&id.location, kind);
                }
                let ghost s2 = *verifier;
                verifier.map_node(pattern.id, None);
                proof { lemma_step_trans(start, s1, s2); lemma_step_trans(start, s2, *verifier); }
                return Ok(());
            },
            Some(e) => e,
        };
        verifier.detect_local_capture(&e);
        let ghost s2 = *verifier;
        let val = verifier.reference_post_processing(e, &default_context());
        match verifier.host.implicit(&val, &init_st) {
            None => {
                verifier.add_verify_error(&id.location, DiagnosticKind::ImplicitCoercionToUnrelatedType);
                let ghost s3 = *verifier;
                verifier.map_node(pattern.id, None);
                proof { lemma_step_trans(start, s1, s2); lemma_step_trans(start, s2, s3); lemma_step_trans(start, s3, *verifier); }
            },
            Some(c) => {
                verifier.map_node(pattern.id, Some(c));
                proof { lemma_step_trans(start, s1, s2); lemma_step_trans(start, s2, *verifier); }
            },
        }
        Ok(())
    }

    /// Verifies a non-null pattern `p!`: `p` receives `init` made non-nullable.
    pub fn verify_non_null_pattern(verifier: &mut Subverifier, pattern: &Expression, init: &Entity) -> (r: Result<(), DeferError>)
        requires
            old(verifier).scope is Some,
            pattern.kind is Unary,
        ensures
            final(verifier).step(*old(verifier)),
            old(verifier).host.node_mapping@.contains_key(pattern.id) ==> *final(verifier) == *old(verifier) && r is Ok,
            r is Ok ==> final(verifier).host.node_mapping@.contains_key(pattern.id),
        decreases pattern, 1nat,
    {
        if verifier.host.node_mapping.contains_key(&pattern.id) {
            return Ok(());
        }
        if matches!(init, Entity::Unresolved) {
            return Err(DeferError);
        }
        let sub = match &pattern.kind {
            ExpressionKind::Unary { expression, .. } => expression,
            _ => { proof { assert(false); } return Ok(()); },
        };
        let v = non_null_value(init);
        let ghost start = *verifier;
        proof { assert(decreases_to!(*pattern => pattern.kind)); }
        Self::verify_pattern(verifier, sub, &v)?;
        let ghost s1 = *verifier;
        verifier.map_node(pattern.id, Some(v));
        proof { lemma_step_trans(start, s1, *verifier); }
        Ok(())
    }

    /// Verifies an array pattern `[p1, ...ps]` that is assigned `init`: the
    /// elements receive elements of a `Vector`, an `Array` or a tuple; a
    /// rest element must come last and only once.
    pub fn verify_array_pattern(verifier: &mut Subverifier, pattern: &Expression, init: &Entity) -> (r: Result<(), DeferError>)
        requires
            old(verifier).scope is Some,
            pattern.kind is ArrayLiteral,
        ensures
            final(verifier).step(*old(verifier)),
            old(verifier).host.node_mapping@.contains_key(pattern.id) ==> *final(verifier) == *old(verifier) && r is Ok,
            r is Ok ==> final(verifier).host.node_mapping@.contains_key(pattern.id),
        decreases pattern, 1nat,
    {
        if verifier.host.node_mapping.contains_key(&pattern.id) {
            return Ok(());
        }
        if matches!(init, Entity::Unresolved) {
            return Err(DeferError);
        }
        let elements = match &pattern.kind {
            ExpressionKind::ArrayLiteral { elements } => elements,
            _ => { proof { assert(false); } return Ok(()); },
        };
        proof {
            assert(decreases_to!(*pattern => pattern.kind));
            assert(decreases_to!(pattern.kind => pattern.kind->ArrayLiteral_elements));
        }
        let ghost start = *verifier;
        let init_st_esc = escape_of_non_nullable(&init.static_type());
        let mut rest_loc: Option<Location> = None;
        let mut rest_i: usize = 0;
        let mut i: usize = 0;
        while i < elements.len()
            invariant
                i <= elements@.len(),
                start == *old(verifier),
                verifier.step(start),
                verifier.scope is Some,
                !old(verifier).host.node_mapping@.contains_key(pattern.id) ==> !verifier.host.node_mapping@.contains_key(pattern.id),
                verifier.host.node_mapping == old(verifier).host.node_mapping,
                rest_loc is Some ==> rest_i < i,
            decreases elements@.len() - i,
        {
            if let Element::Rest(_, loc) = &elements[i] {
                if rest_loc.is_some() {
                    let ghost s1 = *verifier;
                    verifier.add_verify_error(loc, DiagnosticKind::UnexpectedRest);
                    proof { lemma_step_trans(start, s1, *verifier); }
                }
                rest_i = i;
                rest_loc = Some(*loc);
            }
            i = i + 1;
        }
        if let Some(loc) = rest_loc {
            if rest_i + 1 != elements.len() {
                let ghost s1 = *verifier;
                verifier.add_verify_error(&loc, DiagnosticKind::UnexpectedRest);
                proof { lemma_step_trans(start, s1, *verifier); }
            }
        }
        let ghost s1 = *verifier;
        if let Some(elem_type) = vector_element_type(&init_st_esc) {
            Self::verify_vector_array_pattern(verifier, elements, &init_st_esc, &elem_type)?;
        } else if let Some(elem_type) = array_element_type(&init_st_esc) {
            Self::verify_array_array_pattern(verifier, elements, &init_st_esc, &elem_type)?;
        } else if let Some(TypeDef::Tuple(ts)) = verifier.host.get_def(&init_st_esc) {
            let ts = crate::semantics::clone_types(ts);
            Self::verify_tuple_array_pattern(verifier, pattern, elements, &ts)?;
        } else if init_st_esc.is(Ty::Any) || init_st_esc.is(Ty::Object) {
            Self::verify_untyped_array_pattern(verifier, elements)?;
        } else {
            Self::verify_invalidation_array_pattern(verifier, elements)?;
        }
        let ghost s2 = *verifier;
        verifier.map_node(pattern.id, Some(init.clone()));
        proof {
            lemma_step_trans(start, s1, s2);
            lemma_step_trans(start, s2, *verifier);
        }
        Ok(())
    }
}

impl AssignmentDestructuringSubverifier {
    /// Verifies the element patterns: each plain element receives
    /// `expr_init` and a rest element receives `rest_init`.
    fn verify_elements_with(verifier: &mut Subverifier, elements: &Vec<Element>, expr_init: &Entity, rest_init: &Entity)
        -> (r: Result<(), DeferError>)
        requires
            old(verifier).scope is Some,
        ensures
            final(verifier).step(*old(verifier)),
            r is Ok ==> elements_done(*final(verifier), elements@),
            elements_settled(*old(verifier), elements@) ==> r is Ok && *final(verifier) == *old(verifier),
        decreases elements, 0nat,
    {
        let ghost start = *verifier;
        let mut i: usize = 0;
        while i < elements.len()
            invariant
                i <= elements@.len(),
                start == *old(verifier),
                verifier.step(start),
                verifier.scope is Some,
                elements_done(*verifier, elements@.take(i as int)),
                elements_settled(start, elements@) ==> *verifier == start,
            decreases elements@.len() - i,
        {
            let ghost before = *verifier;
            proof {
                assert(decreases_to!(*elements => elements@));
                assert(decreases_to!(elements@ => elements@[i as int]));
            }
            let v = match &elements[i] {
                Element::Expression(subpat) => Self::verify_pattern(verifier, subpat, expr_init),
                Element::Rest(restpat, _) => Self::verify_pattern(verifier, restpat, rest_init),
                Element::Elision => Ok(()),
            };
            proof { lemma_step_trans(start, before, *verifier); }
            v?;
            proof {
                assert forall|j: int| 0 <= j < i + 1 implies match element_pattern(#[trigger] elements@.take(i + 1)[j]) {
                    Some(p) => pattern_done(*verifier, p),
                    None => true,
                } by {
                    if j < i {
                        assert(elements@.take(i + 1)[j] == elements@.take(i as int)[j]);
                        if let Some(p) = element_pattern(elements@[j]) {
                            assert(pattern_done(before, p));
                        }
                    }
                }
                if elements_settled(start, elements@) {
                    assert(match element_pattern(elements@[i as int]) { Some(p) => pattern_settled(start, p), None => true });
                }
            }
            i = i + 1;
        }
        proof { assert(elements@.take(i as int) =~= elements@); }
        Ok(())
    }

    /// Elements of a pattern assigned a `Vector.<T>` receive `T` values; a
    /// rest element receives the vector type.
    fn verify_vector_array_pattern(verifier: &mut Subverifier, elements: &Vec<Element>, vector_type: &Ty, elem_type: &Ty)
        -> (r: Result<(), DeferError>)
        requires
            old(verifier).scope is Some,
        ensures
            final(verifier).step(*old(verifier)),
            r is Ok ==> elements_done(*final(verifier), elements@),
            elements_settled(*old(verifier), elements@) ==> r is Ok && *final(verifier) == *old(verifier),
        decreases elements, 1nat,
    {
        Self::verify_elements_with(verifier, elements, &Entity::Value { ty: elem_type.clone() }, &Entity::Value { ty: vector_type.clone() })
    }

    /// Elements of a pattern assigned an `Array.<T>` receive `T` values; a
    /// rest element receives the array type.
    fn verify_array_array_pattern(verifier: &mut Subverifier, elements: &Vec<Element>, array_type: &Ty, elem_type: &Ty)
        -> (r: Result<(), DeferError>)
        requires
            old(verifier).scope is Some,
        ensures
            final(verifier).step(*old(verifier)),
            r is Ok ==> elements_done(*final(verifier), elements@),
            elements_settled(*old(verifier), elements@) ==> r is Ok && *final(verifier) == *old(verifier),
        decreases elements, 1nat,
    {
        Self::verify_elements_with(verifier, elements, &Entity::Value { ty: elem_type.clone() }, &Entity::Value { ty: array_type.clone() })
    }

    /// Elements of a pattern assigned a `*` or `Object` value receive `*` values.
    fn verify_untyped_array_pattern(verifier: &mut Subverifier, elements: &Vec<Element>) -> (r: Result<(), DeferError>)
        requires
            old(verifier).scope is Some,
        ensures
            final(verifier).step(*old(verifier)),
            r is Ok ==> elements_done(*final(verifier), elements@),
            elements_settled(*old(verifier), elements@) ==> r is Ok && *final(verifier) == *old(verifier),
        decreases elements, 1nat,
    {
        Self::verify_elements_with(verifier, elements, &Entity::Value { ty: Ty::Any }, &Entity::Value { ty: Ty::Any })
    }

    /// Elements of a pattern assigned a value of no array type receive an invalidation.
    fn verify_invalidation_array_pattern(verifier: &mut Subverifier, elements: &Vec<Element>) -> (r: Result<(), DeferError>)
        requires
            old(verifier).scope is Some,
        ensures
            final(verifier).step(*old(verifier)),
            r is Ok ==> elements_done(*final(verifier), elements@),
            elements_settled(*old(verifier), elements@) ==> r is Ok && *final(verifier) == *old(verifier),
        decreases elements, 1nat,
    {
        Self::verify_elements_with(verifier, elements, &Entity::Invalidation, &Entity::Invalidation)
    }

    /// Elements of a pattern assigned a tuple receive the tuple's element
    /// types in order; a rest element receives `[*]`, and elements after it
    /// or beyond the tuple receive an invalidation. More elements than the
    /// tuple has, without a rest element, are reported.
    fn verify_tuple_array_pattern(verifier: &mut Subverifier, pattern: &Expression, elements: &Vec<Element>, elem_types: &Vec<Ty>)
        -> (r: Result<(), DeferError>)
        requires
            old(verifier).scope is Some,
        ensures
            final(verifier).step(*old(verifier)),
            r is Ok && elements@.len() > elem_types@.len()
                && !(exists|i: int| 0 <= i < elements@.len() && #[trigger] elements@[i] is Rest)
                ==> final(verifier).spec_has_error_at(pattern.location),
            r is Ok ==> elements_done(*final(verifier), elements@),
            elements_settled(*old(verifier), elements@) && elements@.len() <= elem_types@.len()
                ==> r is Ok && *final(verifier) == *old(verifier),
            elements_settled(*old(verifier), elements@) ==> r is Ok,
        decreases elements, 1nat,
    {
        let ghost start = *verifier;
        let mut rest_found = false;
        let mut i: usize = 0;
        while i < elements.len()
            invariant
                i <= elements@.len(),
                start == *old(verifier),
                verifier.step(start),
                verifier.scope is Some,
                rest_found <==> exists|j: int| 0 <= j < i && #[trigger] elements@[j] is Rest,
                elements_done(*verifier, elements@.take(i as int)),
                elements_settled(start, elements@) ==> *verifier == start,
            decreases elements@.len() - i,
        {
            let ghost before = *verifier;
            proof {
                assert(decreases_to!(*elements => elements@));
                assert(decreases_to!(elements@ => elements@[i as int]));
            }
            let v = match &elements[i] {
                Element::Expression(subpat) => {
                    let init = if rest_found || i >= elem_types.len() {
                        Entity::Invalidation
                    } else {
                        Entity::Value { ty: elem_types[i].clone() }
                    };
                    Self::verify_pattern(verifier, subpat, &init)
                },
                Element::Rest(restpat, _) => {
                    rest_found = true;
                    Self::verify_pattern(verifier, restpat, &Entity::Value { ty: array_type_of_any() })
                },
                Element::Elision => Ok(()),
            };
            proof { lemma_step_trans(start, before, *verifier); }
            v?;
            proof {
                assert forall|j: int| 0 <= j < i + 1 implies match element_pattern(#[trigger] elements@.take(i + 1)[j]) {
                    Some(p) => pattern_done(*verifier, p),
                    None => true,
                } by {
                    if j < i {
                        assert(elements@.take(i + 1)[j] == elements@.take(i as int)[j]);
                        if let Some(p) = element_pattern(elements@[j]) {
                            assert(pattern_done(before, p));
                        }
                    }
                }
                if elements_settled(start, elements@) {
                    assert(match element_pattern(elements@[i as int]) { Some(p) => pattern_settled(start, p), None => true });
                }
            }
            i = i + 1;
        }
        proof { assert(elements@.take(i as int) =~= elements@); }
        let ghost s0 = *verifier;
        if i > elem_types.len() && !rest_found {
            let ghost s1 = *verifier;
            verifier.add_verify_error(&pattern.location, DiagnosticKind::ArrayLengthNotEqualsTupleLength);
            proof { lemma_step_trans(start, s1, *verifier); lemma_results_stable(s1, *verifier); }
        }
        proof {
            assert forall|j: int| 0 <= j < elements@.len() implies match element_pattern(#[trigger] elements@[j]) {
                Some(p) => pattern_done(*verifier, p),
                None => true,
            } by {
                assert(elements@.take(elements@.len() as int)[j] == elements@[j]);
                if let Some(p) = element_pattern(elements@[j]) {
                    assert(pattern_done(s0, p));
                }
            }
        }
        Ok(())
    }

    /// Resolves the variable that a shorthand field `{x}` of an object
    /// pattern assigns.
    fn verify_shorthand_target_of_object_pattern(verifier: &mut Subverifier, name: &String, location: &Location)
        -> (r: Result<Option<Entity>, DeferError>)
        ensures
            final(verifier).step(*old(verifier)),
            r matches Ok(res) ==> res == crate::exp_names::spec_name_result(*old(verifier),
                PropertyLookupKey::LocalName(*name), crate::subverifier::VerifierExpressionContext::spec_default())
                && (res is None ==> final(verifier).spec_has_error_at(*location)),
            r is Ok,
    {
        let key = PropertyLookupKey::LocalName(name.clone());
        let kind = match verifier.host.lookup_in_scope_chain(verifier.scope, &key) {
            Ok(Some(e)) => {
                let ghost s0 = *verifier;
                verifier.detect_local_capture(&e);
                return Ok(Some(verifier.reference_post_processing(e, &default_context())));
            },
            Err(PropertyLookupError::Defer) => return Err(DeferError),
            Ok(None) => DiagnosticKind::UndefinedProperty,
            Err(PropertyLookupError::AmbiguousReference(_)) => DiagnosticKind::AmbiguousReference,
            Err(PropertyLookupError::VoidBase) => DiagnosticKind::AccessOfVoid,
            Err(PropertyLookupError::NullableObject) => DiagnosticKind::AccessOfNullable,
        };
        verifier.add_verify_error(location, kind);
        Ok(None)
    }
}

impl AssignmentDestructuringSubverifier {
    /// Verifies a field `name: p` of an object pattern assigned `init`: the
    /// field is looked up in `init`, and the sub-pattern `p` (or, for a
    /// shorthand `{x}`, the variable `x`) receives its value. The field node
    /// is mapped to the field's value once resolved.
    fn verify_object_pattern_field(verifier: &mut Subverifier, field: &InitializerField, init: &Entity)
        -> (r: Result<(), DeferError>)
        requires
            old(verifier).scope is Some,
        ensures
            final(verifier).step(*old(verifier)),
            r is Ok ==> match *field {
                InitializerField::Field { id, name_location, .. } => final(verifier).is_verified(id)
                    || final(verifier).spec_has_error_at(name_location),
                InitializerField::Rest(p, loc) => pattern_done(*final(verifier), *p) && final(verifier).spec_has_error_at(loc),
            },
            (*field matches InitializerField::Field { id, .. } && old(verifier).is_verified(id))
                ==> r is Ok && *final(verifier) == *old(verifier),
            object_field_settled(*old(verifier), *field, *init) ==> r is Ok,
        decreases field, 1nat,
    {
        let ghost start = *verifier;
        let (fid, name, name_location, non_null, subpat) = match field {
            InitializerField::Rest(restpat, loc) => {
                verifier.add_verify_error(loc, DiagnosticKind::UnexpectedRest);
                let ghost s1 = *verifier;
                proof { assert(decreases_to!(*field => field->Rest_0)); }
                let v = Self::verify_pattern(verifier, restpat, &Entity::Invalidation);
                proof { lemma_step_trans(start, s1, *verifier); lemma_keeps_error(s1, *verifier, *loc); }
                return v;
            },
            InitializerField::Field { id, name, name_location, non_null, value } => (*id, name, *name_location, *non_null, value),
        };
        if verifier.host.node_mapping.contains_key(&fid) {
            return Ok(());
        }
        proof { assert(decreases_to!(*field => field->name)); }
        let key = match name {
            FieldName::Identifier(id) => {
                match ExpSubverifier::verify_qualified_identifier(verifier, id)? {
                    Some((_, key)) => Some(key),
                    None => None,
                }
            },
            FieldName::Brackets(e) | FieldName::NumericLiteral(e) | FieldName::StringLiteral(e) => {
                let v = verifier.verify_expression(e, &default_context())?;
                Some(PropertyLookupKey::Computed(match v { Some(v) => v, None => Entity::Invalidation }))
            },
        };
        let ghost s1 = *verifier;
        proof { lemma_step_trans(start, start, s1); }
        let key = match key {
            None => {
                if let Some(sp) = subpat {
                    proof { assert(decreases_to!(*field => field->value)); }
                    let v = Self::verify_pattern(verifier, sp, &Entity::Invalidation);
                    proof { lemma_step_trans(start, s1, *verifier); }
                    v?;
                }
                let ghost s2 = *verifier;
                verifier.map_node(fid, None);
                proof { lemma_step_trans(start, s2, *verifier); }
                return Ok(());
            },
            Some(k) => k,
        };
        let (error, found) = match verifier.host.lookup_in_object(init, &key) {
            Ok(Some(e)) => (None, Some(e)),
            Err(PropertyLookupError::Defer) => return Err(DeferError),
            Ok(None) => (Some(DiagnosticKind::UndefinedPropertyWithStaticType), None),
            Err(PropertyLookupError::AmbiguousReference(_)) => (Some(DiagnosticKind::AmbiguousReference), None),
            Err(PropertyLookupError::VoidBase) => (Some(DiagnosticKind::AccessOfVoid), None),
            Err(PropertyLookupError::NullableObject) => (Some(DiagnosticKind::AccessOfNullable), None),
        };
        let found = match found {
            None => {
                if let Some(sp) = subpat {
                    proof { assert(decreases_to!(*field => field->value)); }
                    let v = Self::verify_pattern(verifier, sp, &Entity::Invalidation);
                    proof { lemma_step_trans(start, s1, *verifier); }
                    v?;
                }
                let ghost s2 = *verifier;
                verifier.map_node(fid, None);
                if let Some(kind) = error {
                    verifier.add_verify_error(&name_location, kind);
                }
                proof { lemma_step_trans(start, s2, *verifier); }
                return Ok(());
            },
            Some(e) => e,
        };
        let mut postval = verifier.reference_post_processing(found, &default_context());
        if non_null {
            postval = non_null_value(&postval);
        }
        match subpat {
            Some(sp) => {
                proof { assert(decreases_to!(*field => field->value)); }
                let v = Self::verify_pattern(verifier, sp, &postval);
                proof { lemma_step_trans(start, s1, *verifier); }
                v?;
            },
            None => {
                let shorthand = match name {
                    FieldName::Identifier(q) => match &q.id {
                        QualifiedIdentifierIdentifier::Id(n, loc) => Some((n, *loc)),
                        _ => None,
                    },
                    _ => None,
                };
                let (n, loc) = match shorthand {
                    None => {
                        verifier.add_syntax_error(&name_location, DiagnosticKind::UnexpectedFieldNameInDestructuring);
                        proof { lemma_step_trans(start, s1, *verifier); }
                        return Ok(());
                    },
                    Some(x) => x,
                };
                let target = Self::verify_shorthand_target_of_object_pattern(verifier, n, &loc);
                proof { lemma_step_trans(start, s1, *verifier); }
                if let Some(target) = target? {
                    if verifier.host.implicit(&postval, &target.static_type()).is_none() {
                        let ghost s2 = *verifier;
                        verifier.add_verify_error(&name_location, DiagnosticKind::ImplicitCoercionToUnrelatedType);
                        proof { lemma_step_trans(start, s2, *verifier); }
                        return Ok(());
                    }
                }
            },
        }
        let ghost s3 = *verifier;
        verifier.map_node(fid, Some(postval));
        proof { lemma_step_trans(start, s3, *verifier); }
        Ok(())
    }

    /// Verifies an object pattern `{a: p, b}` assigned `init`; a rest field
    /// is reported.
    fn verify_object_pattern(verifier: &mut Subverifier, pattern: &Expression, init: &Entity) -> (r: Result<(), DeferError>)
        requires
            old(verifier).scope is Some,
            pattern.kind is ObjectInitializer,
        ensures
            final(verifier).step(*old(verifier)),
            old(verifier).host.node_mapping@.contains_key(pattern.id) ==> *final(verifier) == *old(verifier) && r is Ok,
            r is Ok ==> final(verifier).host.node_mapping@.contains_key(pattern.id),
            r is Ok && !old(verifier).host.node_mapping@.contains_key(pattern.id) ==> forall|i: int|
                0 <= i < pattern.kind->ObjectInitializer_fields@.len()
                ==> object_field_done(*final(verifier), #[trigger] pattern.kind->ObjectInitializer_fields@[i]),
            !(*init is Unresolved) && (forall|i: int| 0 <= i < pattern.kind->ObjectInitializer_fields@.len()
                ==> object_field_settled(*old(verifier), #[trigger] pattern.kind->ObjectInitializer_fields@[i], *init)) ==> r is Ok,
        decreases pattern, 1nat,
    {
        if verifier.host.node_mapping.contains_key(&pattern.id) {
            return Ok(());
        }
        if matches!(init, Entity::Unresolved) {
            return Err(DeferError);
        }
        let fields = match &pattern.kind {
            ExpressionKind::ObjectInitializer { fields } => fields,
            _ => { proof { assert(false); } return Ok(()); },
        };
        let ghost start = *verifier;
        let mut i: usize = 0;
        while i < fields.len()
            invariant
                i <= fields@.len(),
                pattern.kind is ObjectInitializer,
                pattern.kind->ObjectInitializer_fields == *fields,
                !old(verifier).host.node_mapping@.contains_key(pattern.id),
                start == *old(verifier),
                verifier.step(start),
                verifier.scope is Some,
                forall|j: int| 0 <= j < i ==> object_field_done(*verifier, #[trigger] fields@[j]),
                (forall|j: int| 0 <= j < fields@.len() ==> object_field_settled(start, #[trigger] fields@[j], *init))
                    ==> forall|j: int| 0 <= j < fields@.len() ==> object_field_settled(*verifier, #[trigger] fields@[j], *init),
            decreases fields@.len() - i,
        {
            let ghost before = *verifier;
            proof {
                assert(decreases_to!(*pattern => pattern.kind));
                assert(decreases_to!(pattern.kind => pattern.kind->ObjectInitializer_fields));
                assert(decreases_to!(*fields => fields@));
                assert(decreases_to!(fields@ => fields@[i as int]));
            }
            let v = Self::verify_object_pattern_field(verifier, &fields[i], init);
            proof {
                lemma_step_trans(start, before, *verifier);
                if forall|j: int| 0 <= j < fields@.len() ==> object_field_settled(start, #[trigger] fields@[j], *init) {
                    assert forall|j: int| 0 <= j < fields@.len() implies object_field_settled(*verifier, #[trigger] fields@[j], *init) by {
                        assert(object_field_settled(before, fields@[j], *init));
                        lemma_field_settled_stable(before, *verifier, fields@[j], *init);
                    }
                }
            }
            v?;
            proof {
                assert forall|j: int| 0 <= j < i + 1 implies object_field_done(*verifier, #[trigger] fields@[j]) by {
                    if j < i {
                        assert(object_field_done(before, fields@[j]));
                        lemma_field_done_stable(before, *verifier, fields@[j]);
                    }
                }
            }
            i = i + 1;
        }
        let ghost s1 = *verifier;
        verifier.map_node(pattern.id, Some(init.clone()));
        proof { lemma_step_trans(start, s1, *verifier); }
        Ok(())
    }
}

} // verus!
