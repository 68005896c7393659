//! Verification of function type expressions and type argument application.
use vstd::prelude::*;
use crate::ast::{Expression, ExpressionKind, FunctionTypeParameter};
use crate::diagnostics::DiagnosticKind;
use crate::semantics::{Ty, TypeDef, Entity, FunctionParam, ParameterKind, def_of, spec_array_of_any, array_type_of_any, array_element_type};
use crate::subverifier::{Subverifier, VerifierExpressionContext, VerifyMode, DeferError};
use crate::subverifier::reported;
use crate::exp::{ExpSubverifier, type_result, lemma_results_stable, lemma_step_trans};

verus! {

broadcast use vstd::std_specs::hash::group_hash_axioms;

/// The type of a parameter of a function type expression, once verified:
/// its type annotation's, or `[*]` without one.
pub open spec fn spec_param_type(v: Subverifier, p: FunctionTypeParameter) -> Option<Ty> {
    match p.type_expression {
        Some(e) => type_result(v, e.id),
        None => Some(spec_array_of_any()),
    }
}

/// Whether the kind of parameter `i` may follow that of parameter `i - 1`.
pub open spec fn kind_follows(ps: Seq<FunctionTypeParameter>, i: int) -> bool {
    ps[i - 1].kind.spec_may_be_followed_by(ps[i].kind)
}

/// Whether the parameters of a function type expression are valid: each
/// type verified, and each kind may follow the previous one.
pub open spec fn spec_params_valid(v: Subverifier, ps: Seq<FunctionTypeParameter>) -> bool {
    &&& forall|i: int| 0 <= i < ps.len() ==> spec_param_type(v, #[trigger] ps[i]) is Some
    &&& forall|i: int| 0 < i < ps.len() ==> #[trigger] kind_follows(ps, i)
}

/// The result type of a function type expression, once verified.
pub open spec fn spec_fn_result_type(v: Subverifier, result_type: Option<Box<Expression>>) -> Option<Ty> {
    match result_type {
        Some(e) => type_result(v, e.id),
        None => Some(Ty::Any),
    }
}

/// The number of type parameters of a parameterized type: one for
/// `Array`, `Vector` and `Promise`, and that of a generic class or
/// interface of the type table.
pub open spec fn spec_type_params(types: Seq<TypeDef>, t: Ty) -> Option<nat> {
    match t {
        Ty::Array | Ty::Vector | Ty::Promise => Some(1),
        Ty::AppliedToAny(_) => None,
        _ => match def_of(types, t) {
            Some(TypeDef::Class(c)) => if c.type_param_count > 0 { Some(c.type_param_count as nat) } else { None },
            Some(TypeDef::Interface(d)) => if d.type_param_count > 0 { Some(d.type_param_count as nat) } else { None },
            _ => None,
        },
    }
}

/// The type `t.<arg, ...>`: `Array`, `Vector` and `Promise` take their
/// first argument; a generic class or interface of the type table stands
/// for its applications.
pub open spec fn spec_apply_types(t: Ty, first: Ty) -> Ty {
    match t {
        Ty::Array => Ty::ArrayOf(Box::new(first)),
        Ty::Vector => Ty::VectorOf(Box::new(first)),
        Ty::Promise => Ty::PromiseOf(Box::new(first)),
        _ => t,
    }
}

fn type_params(v: &Subverifier, t: &Ty) -> (r: Option<usize>)
    ensures
        match r {
            Some(n) => spec_type_params(v.host.types@, *t) == Some(n as nat),
            None => spec_type_params(v.host.types@, *t) is None,
        },
{
    match t {
        Ty::Array | Ty::Vector | Ty::Promise => Some(1),
        Ty::AppliedToAny(_) => None,
        _ => match v.host.get_def(t) {
            Some(TypeDef::Class(c)) => if c.type_param_count > 0 { Some(c.type_param_count) } else { None },
            Some(TypeDef::Interface(d)) => if d.type_param_count > 0 { Some(d.type_param_count) } else { None },
            _ => None,
        },
    }
}

/// The parameters of a function type from the verified parameter types;
/// `None` when a type failed or a parameter kind may not follow the previous one.
fn build_params(params: &Vec<FunctionTypeParameter>, types: &Vec<Option<Ty>>) -> (r: Option<Vec<FunctionParam>>)
    requires
        types@.len() == params@.len(),
    ensures
        match r {
            Some(out) => {
                &&& out@.len() == params@.len()
                &&& forall|j: int| 0 <= j < params@.len() ==> (#[trigger] out@[j]).kind == params@[j].kind
                    && Some(out@[j].static_type) == types@[j]
                &&& forall|j: int| 0 < j < params@.len() ==> #[trigger] kind_follows(params@, j)
            },
            None => !(forall|j: int| 0 <= j < params@.len() ==> (#[trigger] types@[j]) is Some)
                || !(forall|j: int| 0 < j < params@.len() ==> #[trigger] kind_follows(params@, j)),
        },
{
    let mut out: Vec<FunctionParam> = Vec::new();
    let mut k: usize = 0;
    while k < params.len()
        invariant
            k <= params@.len(),
            types@.len() == params@.len(),
            out@.len() == k,
            forall|j: int| 0 <= j < k ==> (#[trigger] out@[j]).kind == params@[j].kind && Some(out@[j].static_type) == types@[j],
            forall|j: int| 0 < j < k ==> #[trigger] kind_follows(params@, j),
        decreases params@.len() - k,
    {
        if k > 0 && !params[k - 1].kind.may_be_followed_by(params[k].kind) {
            proof { assert(!kind_follows(params@, k as int)); }
            return None;
        }
        match &types[k] {
            None => {
                proof { assert(types@[k as int] is None); }
                return None;
            },
            Some(t) => { out.push(FunctionParam { kind: params[k].kind, static_type: t.clone() }); },
        }
        k = k + 1;
    }
    Some(out)
}

/// Parameter types of verified parameters do not change in later steps.
proof fn lemma_param_types_stable(a: Subverifier, b: Subverifier, params: Seq<FunctionTypeParameter>, types: Seq<Option<Ty>>)
    requires
        b.progress(a),
        types.len() == params.len(),
        forall|j: int| 0 <= j < params.len() ==> #[trigger] types[j] == spec_param_type(a, params[j]),
        forall|j: int| 0 <= j < params.len() ==> ((#[trigger] params[j]).type_expression matches Some(e)
            ==> a.host.node_mapping@.contains_key(e.id)),
    ensures
        forall|j: int| 0 <= j < params.len() ==> #[trigger] types[j] == spec_param_type(b, params[j]),
{
    lemma_results_stable(a, b);
    assert forall|j: int| 0 <= j < params.len() implies #[trigger] types[j] == spec_param_type(b, params[j]) by {
        if let Some(e) = params[j].type_expression {
            assert(a.host.node_mapping@.contains_key(e.id));
        }
    }
}

/// The type expression of a parameter of a function type, where it has one,
/// has been verified in `v`.
pub open spec fn ftp_settled(v: Subverifier, p: FunctionTypeParameter) -> bool {
    match p.type_expression {
        Some(e) => v.is_verified(e.id),
        None => true,
    }
}

impl ExpSubverifier {
    /// Verifies the type of a parameter of a function type expression,
    /// reporting a rest parameter whose type is not an array.
    fn verify_function_type_param(verifier: &mut Subverifier, p: &FunctionTypeParameter) -> (r: Result<Option<Ty>, DeferError>)
        requires
            old(verifier).scope is Some,
        ensures
            final(verifier).step(*old(verifier)),
            r matches Ok(t) ==> t == spec_param_type(*final(verifier), *p)
                && (p.type_expression matches Some(e) ==> final(verifier).host.node_mapping@.contains_key(e.id)),
            ftp_settled(*old(verifier), *p) ==> r is Ok,
            r is Ok && p.kind == ParameterKind::Rest ==> match p.type_expression {
                Some(e) => match type_result(*final(verifier), e.id) {
                    Some(tt) => crate::semantics::spec_array_element_type(tt) is None
                        ==> reported(*old(verifier), *final(verifier), e.location, DiagnosticKind::RestParameterMustBeArray),
                    None => true,
                },
                None => true,
            },
        decreases p, 0nat,
    {
        let ghost start = *verifier;
        let t = match &p.type_expression {
            Some(te) => {
                proof { assert(decreases_to!(*p => p.type_expression)); }
                verifier.verify_type_expression(te)?
            },
            None => Some(array_type_of_any()),
        };
        if let Some(t1) = &t {
            if p.kind == ParameterKind::Rest && array_element_type(t1).is_none() {
                let loc = match &p.type_expression {
                    Some(te) => te.location,
                    None => p.location,
                };
                let ghost s1 = *verifier;
                verifier.add_verify_error(&loc, DiagnosticKind::RestParameterMustBeArray);
                proof {
                    lemma_step_trans(start, s1, *verifier);
                    lemma_results_stable(s1, *verifier);
                    crate::subverifier::lemma_reported_by_add(s1, *verifier, loc, DiagnosticKind::RestParameterMustBeArray);
                    crate::subverifier::lemma_reported_widen(start, s1, *verifier, *verifier, loc, DiagnosticKind::RestParameterMustBeArray);
                }
            }
        }
        Ok(t)
    }

    /// Verifies the types of the parameters of a function type expression.
    fn verify_function_type_params(verifier: &mut Subverifier, params: &Vec<FunctionTypeParameter>)
        -> (r: Result<Vec<Option<Ty>>, DeferError>)
        requires
            old(verifier).scope is Some,
        ensures
            final(verifier).step(*old(verifier)),
            r matches Ok(types) ==> {
                &&& types@.len() == params@.len()
                &&& forall|j: int| 0 <= j < params@.len() ==> #[trigger] types@[j] == spec_param_type(*final(verifier), params@[j])
                &&& forall|j: int| 0 <= j < params@.len() ==> ((#[trigger] params@[j]).type_expression matches Some(e)
                    ==> final(verifier).host.node_mapping@.contains_key(e.id))
            },
            (forall|j: int| 0 <= j < params@.len() ==> ftp_settled(*old(verifier), #[trigger] params@[j])) ==> r is Ok,
        decreases params, 1nat,
    {
        let ghost start = *verifier;
        let mut types: Vec<Option<Ty>> = Vec::new();
        let mut i: usize = 0;
        while i < params.len()
            invariant
                i <= params@.len(),
                start == *old(verifier),
                verifier.step(start),
                verifier.scope is Some,
                types@.len() == i,
                forall|j: int| 0 <= j < i ==> #[trigger] types@[j] == spec_param_type(*verifier, params@[j]),
                forall|j: int| 0 <= j < i ==> ((#[trigger] params@[j]).type_expression matches Some(e)
                    ==> verifier.host.node_mapping@.contains_key(e.id)),
                (forall|j: int| 0 <= j < params@.len() ==> ftp_settled(start, #[trigger] params@[j]))
                    ==> forall|j: int| 0 <= j < params@.len() ==> ftp_settled(*verifier, #[trigger] params@[j]),
            decreases params@.len() - i,
        {
            let ghost before = *verifier;
            proof {
                assert(decreases_to!(*params => params@));
                assert(decreases_to!(params@ => params@[i as int]));
            }
            let t = Self::verify_function_type_param(verifier, &params[i]);
            proof {
                lemma_step_trans(start, before, *verifier);
                lemma_results_stable(before, *verifier);
                assert forall|j: int| 0 <= j < i implies #[trigger] types@[j] == spec_param_type(*verifier, params@[j]) by {
                    if let Some(e) = params@[j].type_expression {
                        assert(before.host.node_mapping@.contains_key(e.id));
                    }
                }
                if forall|j: int| 0 <= j < params@.len() ==> ftp_settled(start, #[trigger] params@[j]) {
                    assert forall|j: int| 0 <= j < params@.len() implies ftp_settled(*verifier, #[trigger] params@[j]) by {
                        assert(ftp_settled(before, params@[j]));
                        if let Some(e) = params@[j].type_expression {
                            assert(before.host.node_mapping@.contains_key(e.id));
                        }
                    }
                }
            }
            types.push(t?);
            i = i + 1;
        }
        Ok(types)
    }

    /// Verifies a function type expression `function(T1, ...T2): R`,
    /// which creates a function type. A rest parameter whose type is not an
    /// array is reported.
    pub fn verify_function_type_exp(verifier: &mut Subverifier, exp: &Expression) -> (r: Result<Option<Entity>, DeferError>)
        requires
            old(verifier).scope is Some,
            exp.kind is FunctionType,
        ensures
            final(verifier).step(*old(verifier)),
            r matches Ok(res) ==> ({
                let ps = exp.kind->FunctionType_parameters@;
                if spec_params_valid(*final(verifier), ps)
                    && spec_fn_result_type(*final(verifier), exp.kind->FunctionType_result_type) is Some {
                    &&& res matches Some(Entity::TypeReference { ty: Ty::Def(k) })
                    &&& final(verifier).host.def_of(Ty::Def(k)) matches Some(TypeDef::Function(fps, rt))
                    &&& Some(rt) == spec_fn_result_type(*final(verifier), exp.kind->FunctionType_result_type)
                    &&& fps@.len() == ps.len()
                    &&& forall|i: int| 0 <= i < ps.len() ==> (#[trigger] fps@[i]).kind == ps[i].kind
                        && Some(fps@[i].static_type) == spec_param_type(*final(verifier), ps[i])
                } else {
                    res is None
                }
            }),
            (forall|j: int| 0 <= j < exp.kind->FunctionType_parameters@.len()
                ==> ftp_settled(*old(verifier), #[trigger] exp.kind->FunctionType_parameters@[j]))
                && (exp.kind->FunctionType_result_type matches Some(e) ==> old(verifier).is_verified(e.id)) ==> r is Ok,
        decreases exp, 1nat,
    {
        let (params, result_type) = match &exp.kind {
            ExpressionKind::FunctionType { parameters, result_type } => (parameters, result_type),
            _ => { proof { assert(false); } return Ok(None); },
        };
        let ghost start = *verifier;
        proof {
            assert(decreases_to!(*exp => exp.kind));
            assert(decreases_to!(exp.kind => exp.kind->FunctionType_parameters));
        }
        let types = Self::verify_function_type_params(verifier, params)?;
        let ghost s1 = *verifier;
        let rt = match result_type {
            Some(re) => {
                proof {
                    assert(decreases_to!(*exp => exp.kind));
                    assert(decreases_to!(exp.kind => exp.kind->FunctionType_result_type));
                }
                let t = verifier.verify_type_expression(re);
                proof {
                    lemma_step_trans(start, s1, *verifier);
                    lemma_results_stable(s1, *verifier);
                }
                match t? {
                    None => return Ok(None),
                    Some(t) => t,
                }
            },
            None => Ty::Any,
        };
        let ghost s2 = *verifier;
        proof {
            lemma_results_stable(s1, s2);
            lemma_param_types_stable(s1, s2, params@, types@);
        }
        let out = match build_params(params, &types) {
            None => {
                proof {
                    if spec_params_valid(s2, params@) {
                        assert forall|j: int| 0 <= j < params@.len() implies (#[trigger] types@[j]) is Some by {
                            assert(spec_param_type(s2, params@[j]) is Some);
                        }
                    }
                }
                return Ok(None);
            },
            Some(out) => out,
        };
        let ghost ops = out@;
        let t = verifier.host.create_function_type(out, rt);
        proof {
            assert(verifier.step(s2));
            lemma_step_trans(start, s2, *verifier);
            lemma_step_trans(s1, s2, *verifier);
            lemma_results_stable(s2, *verifier);
            lemma_param_types_stable(s1, *verifier, params@, types@);
            assert forall|j: int| 0 <= j < params@.len() implies spec_param_type(*verifier, #[trigger] params@[j]) is Some by {
                assert(Some(ops[j].static_type) == types@[j]);
            }
        }
        Ok(Some(Entity::TypeReference { ty: t }))
    }

    /// Verifies a type argument application `base.<T1, ...>`.
    pub fn verify_apply_types_exp(verifier: &mut Subverifier, exp: &Expression) -> (r: Result<Option<Entity>, DeferError>)
        requires
            old(verifier).scope is Some,
            exp.kind is WithTypeArguments,
        ensures
            final(verifier).step(*old(verifier)),
            r matches Ok(res) ==> match final(verifier).value_of(exp.kind->WithTypeArguments_base.id) {
                None => res is None,
                Some(b) => {
                    let args = exp.kind->WithTypeArguments_arguments@;
                    match b.spec_as_type() {
                        None => res is None && final(verifier).spec_has_error_at(exp.kind->WithTypeArguments_base.location),
                        Some(t) => match spec_type_params(final(verifier).host.types@, t) {
                            None => res is None && final(verifier).spec_has_error_at(exp.kind->WithTypeArguments_base.location),
                            Some(n) => if args.len() != n {
                                res is None && final(verifier).spec_has_error_at(exp.kind->WithTypeArguments_base.location)
                            } else if forall|i: int| 0 <= i < args.len() ==> type_result(*final(verifier), (#[trigger] args[i]).id) is Some {
                                res == Some(Entity::TypeReference { ty: spec_apply_types(t, type_result(*final(verifier), args[0].id).unwrap()) })
                            } else {
                                res is None
                            },
                        },
                    }
                },
            },
            old(verifier).is_verified(exp.kind->WithTypeArguments_base.id) && (forall|i: int| 0 <= i < exp.kind->WithTypeArguments_arguments@.len()
                ==> old(verifier).is_verified((#[trigger] exp.kind->WithTypeArguments_arguments@[i]).id)) ==> r is Ok,
        decreases exp, 1nat,
    {
        let (base, args) = match &exp.kind {
            ExpressionKind::WithTypeArguments { base, arguments } => (base, arguments),
            _ => { proof { assert(false); } return Ok(None); },
        };
        let ghost start = *verifier;
        let context = VerifierExpressionContext {
            context_type: None,
            followed_by_type_arguments: true,
            followed_by_call: false,
            mode: VerifyMode::Read,
            preceded_by_negative: false,
        };
        let b = verifier.verify_expression(base, &context)?;
        let ghost s1 = *verifier;
        let mut valid = true;
        let mut first: Option<Ty> = None;
        let mut i: usize = 0;
        while i < args.len()
            invariant
                i <= args@.len(),
                exp.kind is WithTypeArguments,
                exp.kind->WithTypeArguments_arguments == *args,
                start == *old(verifier),
                s1.step(start),
                verifier.step(s1),
                verifier.scope is Some,
                valid <==> forall|j: int| 0 <= j < i ==> type_result(*verifier, (#[trigger] args@[j]).id) is Some,
                i > 0 && valid ==> first == type_result(*verifier, args@[0].id),
                forall|j: int| 0 <= j < i ==> verifier.host.node_mapping@.contains_key((#[trigger] args@[j]).id),
                (forall|j: int| 0 <= j < args@.len() ==> start.is_verified((#[trigger] args@[j]).id))
                    ==> forall|j: int| 0 <= j < args@.len() ==> verifier.is_verified((#[trigger] args@[j]).id),
            decreases args@.len() - i,
        {
            let ghost before = *verifier;
            proof {
                assert(decreases_to!(*exp => exp.kind));
                assert(decreases_to!(exp.kind => exp.kind->WithTypeArguments_arguments));
                assert(decreases_to!(*args => args@));
                assert(decreases_to!(args@ => args@[i as int]));
            }
            let t = verifier.verify_type_expression(&args[i]);
            proof {
                lemma_step_trans(s1, before, *verifier);
                lemma_results_stable(before, *verifier);
                assert forall|j: int| 0 <= j < i implies verifier.host.node_mapping@.contains_key((#[trigger] args@[j]).id)
                    && type_result(*verifier, args@[j].id) == type_result(before, args@[j].id) by {
                    assert(before.host.node_mapping@.contains_key(args@[j].id));
                }
                if forall|j: int| 0 <= j < args@.len() ==> start.is_verified((#[trigger] args@[j]).id) {
                    assert forall|j: int| 0 <= j < args@.len() implies verifier.is_verified((#[trigger] args@[j]).id) by {
                        assert(before.is_verified(args@[j].id));
                    }
                }
            }
            match t? {
                None => { valid = false; },
                Some(t) => {
                    if i == 0 {
                        first = Some(t);
                    }
                },
            }
            i = i + 1;
        }
        proof {
            lemma_step_trans(start, s1, *verifier);
            lemma_results_stable(s1, *verifier);
        }
        let b = match b {
            None => return Ok(None),
            Some(b) => b,
        };
        let ghost s2 = *verifier;
        let t = match b.as_type() {
            None => {
                verifier.add_verify_error(&base.location, DiagnosticKind::EntityIsNotAType);
                proof { lemma_step_trans(start, s2, *verifier); lemma_results_stable(s2, *verifier); }
                return Ok(None);
            },
            Some(t) => t,
        };
        let n = match type_params(verifier, &t) {
            None => {
                verifier.add_verify_error(&base.location, DiagnosticKind::NonParameterizedType);
                proof { lemma_step_trans(start, s2, *verifier); lemma_results_stable(s2, *verifier); }
                return Ok(None);
            },
            Some(n) => n,
        };
        if args.len() < n {
            verifier.add_verify_error(&base.location, DiagnosticKind::IncorrectNumArguments(n));
            proof { lemma_step_trans(start, s2, *verifier); lemma_results_stable(s2, *verifier); }
            return Ok(None);
        } else if args.len() > n {
            verifier.add_verify_error(&base.location, DiagnosticKind::IncorrectNumArgumentsNoMoreThan(n));
            proof { lemma_step_trans(start, s2, *verifier); lemma_results_stable(s2, *verifier); }
            return Ok(None);
        }
        if !valid {
            return Ok(None);
        }
        let first = match first {
            Some(f) => f,
            None => { proof { assert(false); } return Ok(None); },
        };
        let applied = match t {
            Ty::Array => Ty::ArrayOf(Box::new(first)),
            Ty::Vector => Ty::VectorOf(Box::new(first)),
            Ty::Promise => Ty::PromiseOf(Box::new(first)),
            other => other,
        };
        Ok(Some(Entity::TypeReference { ty: applied }))
    }
}

} // verus!
