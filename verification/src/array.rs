//! Verification of array and vector literals.
use vstd::prelude::*;
use crate::ast::{Expression, ExpressionKind, Element};
use crate::diagnostics::DiagnosticKind;
use crate::semantics::{Ty, TypeDef, Entity, def_of, spec_escape_of_nullable_or_non_nullable, escape_of_nullable_or_non_nullable, spec_array_element_type, array_element_type, spec_array_of_any, array_type_of_any, clone_types};
use crate::subverifier::{Subverifier, VerifierExpressionContext, DeferError, default_context};
use crate::exp::{lemma_results_stable, lemma_step_trans, type_result};

verus! {

broadcast use vstd::std_specs::hash::group_hash_axioms;

/// The type an array literal is verified against: the context type, or `[*]`.
pub open spec fn spec_array_context_type(context: VerifierExpressionContext) -> Ty {
    match context.context_type {
        Some(t) => t,
        None => spec_array_of_any(),
    }
}

/// Whether `e` takes array literals of any elements: `*`, `Object` and `[*]`.
pub open spec fn is_dynamic_array_context(e: Ty) -> bool {
    e == Ty::Any || e == Ty::Object || e == spec_array_of_any()
}

/// Whether an array literal with `elements` reports an error at its own
/// location against the context type `e`: against a tuple, a different
/// length or an elision; against a type that is not an array, always.
pub open spec fn spec_array_literal_error(types: Seq<TypeDef>, e: Ty, elements: Seq<Element>) -> bool {
    if is_dynamic_array_context(e) {
        false
    } else {
        match def_of(types, e) {
            Some(TypeDef::Tuple(ts)) => elements.len() != ts@.len()
                || exists|i: int| 0 <= i < elements.len() && #[trigger] elements[i] is Elision,
            _ => spec_array_element_type(e) is None && e != Ty::Invalidation,
        }
    }
}

/// How the elements of an array literal are verified.
enum ArrayMode {
    Dynamic,
    Tuple(Vec<Ty>),
    Typed(Ty),
    Untyped,
}

/// The expression of an element of an array or vector literal, if it has one.
pub open spec fn element_expression(e: Element) -> Option<Expression> {
    match e {
        Element::Expression(x) => Some(x),
        Element::Rest(x, _) => Some(x),
        Element::Elision => None,
    }
}

/// Every expression among `elements` has been verified in `v`.
pub open spec fn elements_verified(v: Subverifier, elements: Seq<Element>) -> bool {
    forall|i: int| 0 <= i < elements.len() ==> match element_expression(#[trigger] elements[i]) {
        Some(x) => v.is_verified(x.id),
        None => true,
    }
}

/// What is verified of `elements` in `a` stays verified in `b`.
pub proof fn lemma_elements_verified_stable(a: Subverifier, b: Subverifier, elements: Seq<Element>)
    requires
        elements_verified(a, elements),
        b.progress(a),
    ensures
        elements_verified(b, elements),
{
    assert forall|i: int| 0 <= i < elements.len() implies match element_expression(#[trigger] elements[i]) {
        Some(x) => b.is_verified(x.id),
        None => true,
    } by {
        if let Some(x) = element_expression(elements[i]) {
            assert(a.is_verified(x.id));
        }
    }
}

/// Verification of array and vector literals.
pub struct ArraySubverifier;

impl ArraySubverifier {
    /// Verifies an array literal against the context type: any elements
    /// for `*`, `Object` and `[*]`; the element types in order for a tuple;
    /// the element type for an `Array.<T>`. The result is a value of the
    /// context type.
    pub fn verify_array_literal(verifier: &mut Subverifier, exp: &Expression, context: &VerifierExpressionContext)
        -> (r: Result<Option<Entity>, DeferError>)
        requires
            old(verifier).scope is Some,
            exp.kind is ArrayLiteral,
        ensures
            final(verifier).step(*old(verifier)),
            r matches Ok(res) ==> ({
                let ct = spec_array_context_type(*context);
                let e = spec_escape_of_nullable_or_non_nullable(ct);
                let elements = exp.kind->ArrayLiteral_elements@;
                &&& res == if e == Ty::Invalidation { Some(Entity::Invalidation) } else { Some(Entity::Value { ty: ct }) }
                &&& spec_array_literal_error(old(verifier).host.types@, e, elements) ==> final(verifier).spec_has_error_at(exp.location)
                &&& !is_dynamic_array_context(e) && def_of(old(verifier).host.types@, e) is Some
                    && def_of(old(verifier).host.types@, e)->0 is Tuple ==> forall|i: int| 0 <= i < elements.len()
                        ==> (#[trigger] elements[i] matches Element::Rest(_, loc) ==> final(verifier).spec_has_error_at(loc))
            }),
            elements_verified(*old(verifier), exp.kind->ArrayLiteral_elements@) ==> r is Ok,
        decreases exp, 1nat,
    {
        let elements = match &exp.kind {
            ExpressionKind::ArrayLiteral { elements } => elements,
            _ => { proof { assert(false); } return Ok(None); },
        };
        let ghost start = *verifier;
        let ct = match &context.context_type {
            Some(t) => t.clone(),
            None => array_type_of_any(),
        };
        let e = escape_of_nullable_or_non_nullable(&ct);
        let dynamic = e.is(Ty::Any) || e.is(Ty::Object) || e.same(&array_type_of_any());
        let mode = if dynamic {
            ArrayMode::Dynamic
        } else {
            match verifier.host.get_def(&e) {
                Some(TypeDef::Tuple(ts)) => ArrayMode::Tuple(clone_types(ts)),
                _ => match array_element_type(&e) {
                    Some(t) => ArrayMode::Typed(t),
                    None => ArrayMode::Untyped,
                },
            }
        };
        if let ArrayMode::Tuple(ts) = &mode {
            if elements.len() != ts.len() {
                verifier.add_verify_error(&exp.location, DiagnosticKind::ArrayLengthNotEqualsTupleLength);
            }
        }
        if let ArrayMode::Untyped = mode {
            if !e.is(Ty::Invalidation) {
                verifier.add_verify_error(&exp.location, DiagnosticKind::UnexpectedArray);
            }
        }
        let ghost s1 = *verifier;
        proof {
            assert(s1.step(start));
            if elements_verified(start, elements@) {
                lemma_elements_verified_stable(start, s1, elements@);
            }
        }
        let mut elision_found = false;
        let mut i: usize = 0;
        while i < elements.len()
            invariant
                i <= elements@.len(),
                exp.kind is ArrayLiteral,
                exp.kind->ArrayLiteral_elements == *elements,
                start == *old(verifier),
                s1.step(start),
                verifier.step(s1),
                verifier.scope is Some,
                elision_found <==> exists|j: int| 0 <= j < i && #[trigger] elements@[j] is Elision,
                mode is Tuple ==> forall|j: int| 0 <= j < i ==> (#[trigger] elements@[j] matches Element::Rest(_, loc)
                    ==> verifier.spec_has_error_at(loc)),
                elements_verified(start, elements@) ==> elements_verified(*verifier, elements@),
            decreases elements@.len() - i,
        {
            let ghost before = *verifier;
            proof {
                assert(decreases_to!(*exp => exp.kind));
                assert(decreases_to!(exp.kind => exp.kind->ArrayLiteral_elements));
                assert(decreases_to!(*elements => elements@));
                assert(decreases_to!(elements@ => elements@[i as int]));
            }
            let v: Result<(), DeferError> = match &elements[i] {
                Element::Elision => {
                    elision_found = true;
                    Ok(())
                },
                Element::Rest(x, loc) => match &mode {
                    ArrayMode::Dynamic => verifier.imp_coerce_exp(x, &e).map(|_v: Option<Entity>| ()),
                    ArrayMode::Tuple(_) => {
                        let v = verifier.verify_expression(x, &default_context());
                        match v {
                            Err(err) => Err(err),
                            Ok(_) => {
                                let ghost b2 = *verifier;
                                verifier.add_verify_error(loc, DiagnosticKind::UnexpectedRest);
                                proof { lemma_step_trans(before, b2, *verifier); }
                                Ok(())
                            },
                        }
                    },
                    ArrayMode::Typed(_) => verifier.imp_coerce_exp(x, &e).map(|_v: Option<Entity>| ()),
                    ArrayMode::Untyped => verifier.verify_expression(x, &default_context()).map(|_v: Option<Entity>| ()),
                },
                Element::Expression(x) => match &mode {
                    ArrayMode::Tuple(ts) => if i < ts.len() {
                        verifier.imp_coerce_exp(x, &ts[i]).map(|_v: Option<Entity>| ())
                    } else {
                        verifier.verify_expression(x, &default_context()).map(|_v: Option<Entity>| ())
                    },
                    ArrayMode::Typed(t) => verifier.imp_coerce_exp(x, t).map(|_v: Option<Entity>| ()),
                    _ => verifier.verify_expression(x, &default_context()).map(|_v: Option<Entity>| ()),
                },
            };
            proof {
                lemma_step_trans(s1, before, *verifier);
                if elements_verified(start, elements@) {
                    assert(match element_expression(elements@[i as int]) { Some(x) => before.is_verified(x.id), None => true });
                    lemma_elements_verified_stable(before, *verifier, elements@);
                }
                if mode is Tuple {
                    assert forall|j: int| 0 <= j < i implies (#[trigger] elements@[j] matches Element::Rest(_, loc)
                        ==> verifier.spec_has_error_at(loc)) by {
                        if let Element::Rest(_, loc) = elements@[j] {
                            crate::subverifier::lemma_keeps_error(before, *verifier, loc);
                        }
                    }
                }
            }
            v?;
            i = i + 1;
        }
        if let ArrayMode::Tuple(_) = &mode {
            if elision_found {
                let ghost s2 = *verifier;
                verifier.add_verify_error(&exp.location, DiagnosticKind::UnexpectedElision);
                proof {
                    lemma_step_trans(s1, s2, *verifier);
                    assert forall|j: int| 0 <= j < elements@.len() implies (#[trigger] elements@[j] matches Element::Rest(_, loc)
                        ==> verifier.spec_has_error_at(loc)) by {
                        if let Element::Rest(_, loc) = elements@[j] {
                            crate::subverifier::lemma_keeps_error(s2, *verifier, loc);
                        }
                    }
                }
            }
        }
        proof {
            lemma_step_trans(start, s1, *verifier);
            if spec_array_literal_error(start.host.types@, e, elements@) && !(mode is Tuple && elision_found) {
                crate::subverifier::lemma_keeps_error(s1, *verifier, exp.location);
            }
        }
        if e.is(Ty::Invalidation) {
            return Ok(Some(Entity::Invalidation));
        }
        Ok(Some(Entity::Value { ty: ct }))
    }
}

/// Whether no element is an elision.
pub open spec fn no_elision(elements: Seq<Element>) -> bool {
    forall|i: int| 0 <= i < elements.len() ==> !(#[trigger] elements[i] is Elision)
}

/// Whether a list of elements has no elision.
pub fn has_no_elision(elements: &Vec<Element>) -> (r: bool)
    ensures
        r == no_elision(elements@),
{
    let mut i: usize = 0;
    while i < elements.len()
        invariant
            i <= elements@.len(),
            forall|j: int| 0 <= j < i ==> !(#[trigger] elements@[j] is Elision),
        decreases elements@.len() - i,
    {
        if let Element::Elision = &elements[i] {
            return false;
        }
        i = i + 1;
    }
    true
}

impl ArraySubverifier {
    /// Verifies a vector literal `new <T>[...]`: elements are coerced to
    /// `T` and rest elements to `Vector.<T>`; the result is a value of
    /// `Vector.<T>`, or an invalidation when `T` fails.
    pub fn verify_vector_literal(verifier: &mut Subverifier, exp: &Expression, context: &VerifierExpressionContext)
        -> (r: Result<Option<Entity>, DeferError>)
        requires
            old(verifier).scope is Some,
            exp.kind is VectorLiteral,
            no_elision(exp.kind->VectorLiteral_elements@),
        ensures
            final(verifier).step(*old(verifier)),
            r matches Ok(res) ==> res == match type_result(*final(verifier), exp.kind->VectorLiteral_element_type.id) {
                Some(t) => Some(Entity::Value { ty: Ty::VectorOf(Box::new(t)) }),
                None => Some(Entity::Invalidation),
            },
            old(verifier).is_verified(exp.kind->VectorLiteral_element_type.id)
                && elements_verified(*old(verifier), exp.kind->VectorLiteral_elements@) ==> r is Ok,
        decreases exp, 1nat,
    {
        let (element_type, elements) = match &exp.kind {
            ExpressionKind::VectorLiteral { element_type, elements } => (element_type, elements),
            _ => { proof { assert(false); } return Ok(None); },
        };
        proof { assert(decreases_to!(*exp => exp.kind)); }
        let ghost start = *verifier;
        let et = verifier.verify_type_expression(element_type)?;
        let ghost s1 = *verifier;
        proof { if elements_verified(start, elements@) { lemma_elements_verified_stable(start, s1, elements@); } }
        let vt = match &et {
            Some(t) => Some(Ty::VectorOf(Box::new(t.clone()))),
            None => None,
        };
        let mut i: usize = 0;
        while i < elements.len()
            invariant
                i <= elements@.len(),
                exp.kind is VectorLiteral,
                exp.kind->VectorLiteral_elements == *elements,
                start == *old(verifier),
                s1.step(start),
                verifier.step(s1),
                verifier.scope is Some,
                vt is Some <==> et is Some,
                elements_verified(start, elements@) ==> elements_verified(*verifier, elements@),
            decreases elements@.len() - i,
        {
            let ghost before = *verifier;
            proof {
                assert(decreases_to!(exp.kind => exp.kind->VectorLiteral_elements));
                assert(decreases_to!(*elements => elements@));
                assert(decreases_to!(elements@ => elements@[i as int]));
            }
            let v: Result<(), DeferError> = match &elements[i] {
                Element::Elision => Ok(()),
                Element::Rest(x, _) => match &vt {
                    Some(vt) => verifier.imp_coerce_exp(x, vt).map(|_v: Option<Entity>| ()),
                    None => verifier.verify_expression(x, &default_context()).map(|_v: Option<Entity>| ()),
                },
                Element::Expression(x) => match &et {
                    Some(t) => verifier.imp_coerce_exp(x, t).map(|_v: Option<Entity>| ()),
                    None => verifier.verify_expression(x, &default_context()).map(|_v: Option<Entity>| ()),
                },
            };
            proof {
                lemma_step_trans(s1, before, *verifier);
                if elements_verified(start, elements@) {
                    assert(match element_expression(elements@[i as int]) { Some(x) => before.is_verified(x.id), None => true });
                    lemma_elements_verified_stable(before, *verifier, elements@);
                }
            }
            v?;
            i = i + 1;
        }
        proof {
            lemma_step_trans(start, s1, *verifier);
            lemma_results_stable(s1, *verifier);
        }
        match vt {
            Some(vt) => Ok(Some(Entity::Value { ty: vt })),
            None => Ok(Some(Entity::Invalidation)),
        }
    }
}

} // verus!
