//! Verification of `new` expressions, calls and type argument application.
use vstd::prelude::*;
use crate::ast::{Expression, ExpressionKind, Location};
use crate::diagnostics::DiagnosticKind;
use crate::semantics::{Ty, TypeDef, Entity, FunctionParam, def_of, spec_escape_of_non_nullable,
    escape_of_non_nullable};
use crate::subverifier::{Subverifier, VerifierExpressionContext, VerifyMode, DeferError, default_context,
    warning_at};
use crate::arguments::{ArgumentsSubverifier, VerifierArgumentsError, rest_params_are_arrays,
    spec_arguments_outcome, arguments_outcome};
use crate::subverifier::{lemma_keeps_error, reported, lemma_reported_widen, lemma_reported_by_add};
use crate::exp::{ExpSubverifier, lemma_results_stable, lemma_step_trans};

verus! {

broadcast use vstd::std_specs::hash::group_hash_axioms;

/// The built-in types whose instances `new` creates.
pub open spec fn is_builtin_class(t: Ty) -> bool {
    match t {
        Ty::Object | Ty::Boolean | Ty::Number | Ty::Float | Ty::Int | Ty::Uint | Ty::String | Ty::Namespace
        | Ty::Function | Ty::RegExp | Ty::Xml | Ty::XmlList | Ty::Date => true,
        Ty::ArrayOf(_) | Ty::VectorOf(_) | Ty::PromiseOf(_) => true,
        _ => false,
    }
}

/// Whether `new` applies to the type `t`: a built-in class, or a class of
/// the type table that is neither static nor abstract.
pub open spec fn spec_new_instantiable(types: Seq<TypeDef>, t: Ty) -> bool {
    match def_of(types, t) {
        Some(TypeDef::Class(c)) => !c.is_static && !c.is_abstract,
        _ => is_builtin_class(t),
    }
}

/// The parameters of the constructor of `t`: `Some(None)` for a class of
/// the type table without a constructor, `Some(Some(ps))` for one whose
/// constructor has a signature of the type table, `None` where the
/// constructor is not known (built-in classes).
pub open spec fn spec_constructor_params(types: Seq<TypeDef>, t: Ty) -> Option<Option<Seq<FunctionParam>>> {
    match def_of(types, t) {
        Some(TypeDef::Class(c)) => match c.constructor {
            None => Some(None),
            Some(sig) => match def_of(types, sig) {
                Some(TypeDef::Function(ps, _)) => if rest_params_are_arrays(ps@) { Some(Some(ps@)) } else { None },
                _ => None,
            },
        },
        _ => None,
    }
}

/// The signature that a call on the verified base `b` follows: its
/// parameters and result type, when the base's type is a function type
/// of the type table.
pub open spec fn spec_call_signature(types: Seq<TypeDef>, b: Entity) -> Option<(Seq<FunctionParam>, Ty)> {
    match def_of(types, spec_escape_of_non_nullable(b.spec_static_type())) {
        Some(TypeDef::Function(ps, res)) => if rest_params_are_arrays(ps@) { Some((ps@, res)) } else { None },
        _ => None,
    }
}

/// Whether the type `t` is `Array`, before or after substitution.
pub open spec fn is_array_class(t: Ty) -> bool {
    t == Ty::Array || t is ArrayOf
}

/// The result of calling the verified base `b`: a call on `Array` is
/// `new Array`, a call on `Date` gives a `String`, a call on another type
/// is a type conversion; a call of a function gives its result type; a
/// call on `*`, `Object`, `Function` or `Class` gives `*`.
pub open spec fn spec_call_result(types: Seq<TypeDef>, b: Entity) -> Option<Entity> {
    match b.spec_as_type() {
        Some(t) => if is_array_class(t) {
            Some(Entity::Value { ty: Ty::Array })
        } else if t == Ty::Date {
            Some(Entity::Value { ty: Ty::String })
        } else {
            Some(Entity::Value { ty: t })
        },
        None => match spec_call_signature(types, b) {
            Some((_, res)) => Some(Entity::Value { ty: res }),
            None => {
                let e = spec_escape_of_non_nullable(b.spec_static_type());
                if e == Ty::Class || e == Ty::Any || e == Ty::Object || e == Ty::Function {
                    Some(Entity::Value { ty: Ty::Any })
                } else {
                    None
                }
            },
        },
    }
}

/// Whether calling the verified base `b` with `n` arguments reports an error:
/// a type conversion takes one argument, a function call follows its
/// signature, and other values cannot be called.
pub open spec fn spec_call_error(types: Seq<TypeDef>, b: Entity, n: nat) -> bool {
    match b.spec_as_type() {
        Some(t) => !is_array_class(t) && t != Ty::Date && n != 1,
        None => match spec_call_signature(types, b) {
            Some((ps, _)) => spec_arguments_outcome(ps, n) is Err,
            None => spec_call_result(types, b) is None,
        },
    }
}

/// Whether calling the verified base `b` warns: a call on `Array` or `Date`.
pub open spec fn spec_call_warning(b: Entity) -> bool {
    match b.spec_as_type() {
        Some(t) => is_array_class(t) || t == Ty::Date,
        None => false,
    }
}

/// Whether `new` on the verified base `b` with `n` arguments reports an error.
pub open spec fn spec_new_error(types: Seq<TypeDef>, b: Entity, n: nat) -> bool {
    match b.spec_as_type() {
        Some(t) => if spec_new_instantiable(types, t) {
            match spec_constructor_params(types, t) {
                Some(None) => n > 0,
                Some(Some(ps)) => spec_arguments_outcome(ps, n) is Err,
                None => false,
            }
        } else {
            true
        },
        None => {
            let e = spec_escape_of_non_nullable(b.spec_static_type());
            !(e == Ty::Any || e == Ty::Class)
        },
    }
}

/// The error that an arguments outcome reports, if any.
pub open spec fn spec_outcome_error(o: Result<(), VerifierArgumentsError>) -> Option<DiagnosticKind> {
    match o {
        Err(VerifierArgumentsError::Expected(k)) => Some(DiagnosticKind::IncorrectNumArguments(k)),
        Err(VerifierArgumentsError::ExpectedNoMoreThan(k)) => Some(DiagnosticKind::IncorrectNumArgumentsNoMoreThan(k)),
        _ => None,
    }
}

/// The error that `new` on the verified base `b` with `n` arguments
/// reports: a base that cannot be instantiated, or a wrong number of
/// arguments for its constructor.
pub open spec fn spec_new_error_kind(types: Seq<TypeDef>, b: Entity, n: nat) -> Option<DiagnosticKind> {
    match b.spec_as_type() {
        Some(t) => if spec_new_instantiable(types, t) {
            match spec_constructor_params(types, t) {
                Some(None) => if n > 0 { Some(DiagnosticKind::IncorrectNumArgumentsNoMoreThan(0)) } else { None },
                Some(Some(ps)) => spec_outcome_error(spec_arguments_outcome(ps, n)),
                None => None,
            }
        } else {
            Some(DiagnosticKind::UnexpectedNewBase)
        },
        None => {
            let e = spec_escape_of_non_nullable(b.spec_static_type());
            if e == Ty::Any || e == Ty::Class { None } else { Some(DiagnosticKind::UnexpectedNewBase) }
        },
    }
}

/// The error that calling the verified base `b` with `n` arguments
/// reports: a type conversion takes one argument, a function call follows
/// its signature, and other values cannot be called.
pub open spec fn spec_call_error_kind(types: Seq<TypeDef>, b: Entity, n: nat) -> Option<DiagnosticKind> {
    match b.spec_as_type() {
        Some(t) => if is_array_class(t) || t == Ty::Date {
            None
        } else if n < 1 {
            Some(DiagnosticKind::IncorrectNumArguments(1))
        } else if n > 1 {
            Some(DiagnosticKind::IncorrectNumArgumentsNoMoreThan(1))
        } else {
            None
        },
        None => match spec_call_signature(types, b) {
            Some((ps, _)) => spec_outcome_error(spec_arguments_outcome(ps, n)),
            None => if spec_call_result(types, b) is None { Some(DiagnosticKind::CallOnNonFunction) } else { None },
        },
    }
}

/// The result of `new` on the verified base `b`.
pub open spec fn spec_new_result(types: Seq<TypeDef>, b: Entity) -> Entity {
    match b.spec_as_type() {
        Some(t) => if spec_new_instantiable(types, t) { Entity::Value { ty: t } } else { Entity::Value { ty: Ty::Any } },
        None => Entity::Value { ty: Ty::Any },
    }
}

/// `ts` is the type table at some point between `a` and `b`.
pub open spec fn types_between(a: Subverifier, b: Subverifier, ts: Seq<TypeDef>) -> bool {
    exists|k: int| a.host.types@.len() <= k <= b.host.types@.len() && ts == b.host.types@.take(k)
}

proof fn lemma_types_between(a: Subverifier, m: Subverifier, b: Subverifier)
    requires
        m.progress(a),
        b.progress(m),
    ensures
        types_between(a, b, m.host.types@),
{
    assert(m.host.types@ =~= b.host.types@.take(m.host.types@.len() as int));
}

/// How `new` applies to a type.
enum NewPlan {
    NotInstantiable,
    Unknown,
    NoConstructor,
    Constructor(Vec<FunctionParam>),
}

fn clone_params(ps: &Vec<FunctionParam>) -> (r: Vec<FunctionParam>)
    ensures
        r@ == ps@,
{
    let mut r: Vec<FunctionParam> = Vec::new();
    let mut i: usize = 0;
    while i < ps.len()
        invariant
            i <= ps@.len(),
            r@ == ps@.take(i as int),
        decreases ps@.len() - i,
    {
        r.push(ps[i].clone_param());
        proof { assert(ps@.take(i + 1) =~= ps@.take(i as int).push(ps@[i as int])); }
        i = i + 1;
    }
    proof { assert(ps@.take(ps@.len() as int) =~= ps@); }
    r
}

fn params_are_arrays(ps: &Vec<FunctionParam>) -> (r: bool)
    ensures
        r == rest_params_are_arrays(ps@),
{
    let mut i: usize = 0;
    while i < ps.len()
        invariant
            i <= ps@.len(),
            forall|j: int| 0 <= j < i && (#[trigger] ps@[j]).kind == crate::semantics::ParameterKind::Rest
                ==> crate::semantics::spec_array_element_type(ps@[j].static_type) is Some,
        decreases ps@.len() - i,
    {
        if ps[i].kind == crate::semantics::ParameterKind::Rest
            && crate::semantics::array_element_type(&ps[i].static_type).is_none() {
            return false;
        }
        i = i + 1;
    }
    true
}

fn builtin_class(t: &Ty) -> (r: bool)
    ensures
        r == is_builtin_class(*t),
{
    matches!(t, Ty::Object | Ty::Boolean | Ty::Number | Ty::Float | Ty::Int | Ty::Uint | Ty::String | Ty::Namespace
        | Ty::Function | Ty::RegExp | Ty::Xml | Ty::XmlList | Ty::Date | Ty::ArrayOf(_) | Ty::VectorOf(_) | Ty::PromiseOf(_))
}

fn new_plan(v: &Subverifier, t: &Ty) -> (r: NewPlan)
    ensures
        match r {
            NewPlan::NotInstantiable => !spec_new_instantiable(v.host.types@, *t),
            NewPlan::Unknown => spec_new_instantiable(v.host.types@, *t) && spec_constructor_params(v.host.types@, *t) is None,
            NewPlan::NoConstructor => spec_new_instantiable(v.host.types@, *t) && spec_constructor_params(v.host.types@, *t) == Some(None::<Seq<FunctionParam>>),
            NewPlan::Constructor(ps) => spec_new_instantiable(v.host.types@, *t)
                && spec_constructor_params(v.host.types@, *t) == Some(Some(ps@)) && rest_params_are_arrays(ps@),
        },
{
    match v.host.get_def(t) {
        Some(TypeDef::Class(c)) => {
            if c.is_static || c.is_abstract {
                return NewPlan::NotInstantiable;
            }
            match &c.constructor {
                None => NewPlan::NoConstructor,
                Some(sig) => match v.host.get_def(sig) {
                    Some(TypeDef::Function(ps, _)) => if params_are_arrays(ps) {
                        NewPlan::Constructor(clone_params(ps))
                    } else {
                        NewPlan::Unknown
                    },
                    _ => NewPlan::Unknown,
                },
            }
        },
        _ => if builtin_class(t) { NewPlan::Unknown } else { NewPlan::NotInstantiable },
    }
}

/// Reports the outcome of an arguments verification at `location`.
fn report_arguments(verifier: &mut Subverifier, outcome: Result<(), VerifierArgumentsError>, location: &Location)
    -> (r: Result<(), DeferError>)
    ensures
        final(verifier).step(*old(verifier)),
        final(verifier).host.types == old(verifier).host.types,
        outcome is Ok ==> *final(verifier) == *old(verifier) && r is Ok,
        outcome matches Err(VerifierArgumentsError::Defer) ==> r is Err,
        outcome matches Err(VerifierArgumentsError::Expected(_)) ==> r is Ok && final(verifier).spec_has_error_at(*location),
        outcome matches Err(VerifierArgumentsError::ExpectedNoMoreThan(_)) ==> r is Ok && final(verifier).spec_has_error_at(*location),
        match spec_outcome_error(outcome) {
            Some(k) => reported(*old(verifier), *final(verifier), *location, k),
            None => true,
        },
{
    match outcome {
        Ok(()) => Ok(()),
        Err(VerifierArgumentsError::Defer) => Err(DeferError),
        Err(VerifierArgumentsError::Expected(n)) => {
            let ghost s0 = *verifier;
            verifier.add_verify_error(location, DiagnosticKind::IncorrectNumArguments(n));
            proof { lemma_reported_by_add(s0, *verifier, *location, DiagnosticKind::IncorrectNumArguments(n)); }
            Ok(())
        },
        Err(VerifierArgumentsError::ExpectedNoMoreThan(n)) => {
            let ghost s0 = *verifier;
            verifier.add_verify_error(location, DiagnosticKind::IncorrectNumArgumentsNoMoreThan(n));
            proof { lemma_reported_by_add(s0, *verifier, *location, DiagnosticKind::IncorrectNumArgumentsNoMoreThan(n)); }
            Ok(())
        },
    }
}

/// The number of arguments of a `new` expression.
pub open spec fn new_argument_count(arguments: Option<Vec<Expression>>) -> nat {
    match arguments {
        Some(a) => a@.len(),
        None => 0,
    }
}

/// What a `new` expression gives, from what its base verified to.
pub open spec fn new_exp_done(old: Subverifier, new: Subverifier, exp: Expression, res: Option<Entity>) -> bool {
    match new.value_of(exp.kind->New_base.id) {
        None => res is None,
        Some(b) => exists|ts: Seq<TypeDef>| types_between(old, new, ts)
            && res == Some(spec_new_result(ts, b))
            && (spec_new_error(ts, b, new_argument_count(exp.kind->New_arguments))
                ==> new.spec_has_error_at(exp.kind->New_base.location))
            && match spec_new_error_kind(ts, b, new_argument_count(exp.kind->New_arguments)) {
                Some(k) => reported(old, new, exp.kind->New_base.location, k),
                None => true,
            },
    }
}

impl ExpSubverifier {
    /// Verifies a `new` expression: the base must be a class that is
    /// neither static nor abstract, or a `Class` value; the arguments follow
    /// the constructor's signature.
    pub fn verify_new_exp(verifier: &mut Subverifier, exp: &Expression) -> (r: Result<Option<Entity>, DeferError>)
        requires
            old(verifier).scope is Some,
            exp.kind is New,
        ensures
            final(verifier).step(*old(verifier)),
            r matches Ok(res) ==> new_exp_done(*old(verifier), *final(verifier), *exp, res),
            old(verifier).is_verified(exp.kind->New_base.id) && (exp.kind->New_arguments matches Some(args)
                ==> forall|i: int| 0 <= i < args@.len() ==> old(verifier).is_verified((#[trigger] args@[i]).id)) ==> r is Ok,
        decreases exp, 1nat,
    {
        let (base, arguments) = match &exp.kind {
            ExpressionKind::New { base, arguments } => (base, arguments),
            _ => { proof { assert(false); } return Ok(None); },
        };
        proof {
            assert(decreases_to!(*exp => exp.kind));
            assert(decreases_to!(exp.kind => exp.kind->New_arguments));
        }
        let ghost start = *verifier;
        let b = verifier.verify_expression(base, &default_context())?;
        let ghost s1 = *verifier;
        let b = match b {
            None => {
                if let Some(args) = arguments {
                    proof { assert(decreases_to!(exp.kind->New_arguments => exp.kind->New_arguments->0)); }
                    let v = verifier.verify_each(args);
                    proof { lemma_step_trans(start, s1, *verifier); lemma_results_stable(s1, *verifier); }
                    v?;
                }
                return Ok(None);
            },
            Some(b) => b,
        };
        let n: usize = match arguments { Some(a) => a.len(), None => 0 };
        let (result, error) = match b.as_type() {
            Some(t) => match new_plan(verifier, &t) {
                NewPlan::NotInstantiable => (Entity::Value { ty: Ty::Any }, Some(DiagnosticKind::UnexpectedNewBase)),
                NewPlan::Unknown => (Entity::Value { ty: t }, None),
                NewPlan::NoConstructor => (Entity::Value { ty: t },
                    if n > 0 { Some(DiagnosticKind::IncorrectNumArgumentsNoMoreThan(0)) } else { None }),
                NewPlan::Constructor(ps) => {
                    let outcome = match arguments {
                        Some(args) => {
                            proof { assert(decreases_to!(exp.kind->New_arguments => exp.kind->New_arguments->0)); }
                            ArgumentsSubverifier::verify(verifier, args, &ps)
                        },
                        None => arguments_outcome(&ps, 0),
                    };
                    let ghost s2 = *verifier;
                    let rep = report_arguments(verifier, outcome, &base.location);
                    proof {
                        lemma_step_trans(s1, s2, *verifier);
                        lemma_step_trans(start, s1, *verifier);
                        lemma_results_stable(s1, *verifier);
                        lemma_types_between(start, s1, *verifier);
                        lemma_step_trans(start, s1, s2);
                        if let Some(k) = spec_outcome_error(outcome) {
                            lemma_reported_widen(start, s2, *verifier, *verifier, base.location, k);
                        }
                    }
                    rep?;
                    return Ok(Some(Entity::Value { ty: t }));
                },
            },
            None => {
                let e = escape_of_non_nullable(&b.static_type());
                (Entity::Value { ty: Ty::Any }, if e.is(Ty::Any) || e.is(Ty::Class) { None } else { Some(DiagnosticKind::UnexpectedNewBase) })
            },
        };
        let ghost s2 = *verifier;
        if let Some(kind) = error {
            verifier.add_verify_error(&base.location, kind);
        }
        let ghost s3 = *verifier;
        if let Some(args) = arguments {
            proof { assert(decreases_to!(exp.kind->New_arguments => exp.kind->New_arguments->0)); }
            let v = verifier.verify_each(args);
            proof {
                lemma_step_trans(s2, s3, *verifier);
                lemma_step_trans(start, s1, *verifier);
            }
            v?;
        }
        proof {
            lemma_step_trans(s2, s3, *verifier);
            lemma_step_trans(start, s1, *verifier);
            lemma_results_stable(s1, *verifier);
            lemma_types_between(start, s1, *verifier);
            if error is Some {
                lemma_keeps_error(s3, *verifier, base.location);
                lemma_reported_by_add(s2, s3, base.location, error.unwrap());
                lemma_reported_widen(start, s2, s3, *verifier, base.location, error.unwrap());
            }
        }
        Ok(Some(result))
    }
}

/// What a call gives, from what its base verified to.
pub open spec fn call_exp_done(old: Subverifier, new: Subverifier, exp: Expression, res: Option<Entity>) -> bool {
    match new.value_of(exp.kind->Call_base.id) {
        None => res is None,
        Some(b) => exists|ts: Seq<TypeDef>| types_between(old, new, ts)
            && res == spec_call_result(ts, b)
            && (spec_call_error(ts, b, exp.kind->Call_arguments@.len())
                ==> new.spec_has_error_at(exp.kind->Call_base.location))
            && match spec_call_error_kind(ts, b, exp.kind->Call_arguments@.len()) {
                Some(k) => reported(old, new, exp.kind->Call_base.location, k),
                None => true,
            }
            && (spec_call_warning(b) ==> warning_at(new.host.diagnostics@,
                exp.kind->Call_base.location.first_offset)),
    }
}

impl ExpSubverifier {
    /// Verifies the arguments of a type conversion `T(x)`: the first
    /// where a value of `T` is expected, the others plainly.
    fn verify_cast_arguments(verifier: &mut Subverifier, args: &Vec<Expression>, t: &Ty) -> (r: Result<(), DeferError>)
        requires
            old(verifier).scope is Some,
        ensures
            final(verifier).step(*old(verifier)),
            r is Ok ==> forall|i: int| 0 <= i < args@.len() ==> final(verifier).is_verified((#[trigger] args@[i]).id),
            (forall|i: int| 0 <= i < args@.len() ==> old(verifier).is_verified((#[trigger] args@[i]).id))
                ==> r is Ok && *final(verifier) == *old(verifier),
        decreases args, 0nat,
    {
        let ghost start = *verifier;
        let mut i: usize = 0;
        while i < args.len()
            invariant
                i <= args@.len(),
                start == *old(verifier),
                verifier.step(start),
                verifier.scope is Some,
                forall|j: int| 0 <= j < i ==> verifier.is_verified((#[trigger] args@[j]).id),
                (forall|j: int| 0 <= j < args@.len() ==> start.is_verified((#[trigger] args@[j]).id)) ==> *verifier == start,
            decreases args@.len() - i,
        {
            let ghost before = *verifier;
            proof {
                assert(decreases_to!(*args => args@));
                assert(decreases_to!(args@ => args@[i as int]));
            }
            let context = if i == 0 {
                VerifierExpressionContext::with_type(Some(t.clone()))
            } else {
                default_context()
            };
            let v = verifier.verify_expression(&args[i], &context);
            proof { lemma_step_trans(start, before, *verifier); }
            v?;
            i = i + 1;
        }
        Ok(())
    }

    /// Verifies a call `base(args)`.
    pub fn verify_call_exp(verifier: &mut Subverifier, exp: &Expression) -> (r: Result<Option<Entity>, DeferError>)
        requires
            old(verifier).scope is Some,
            exp.kind is Call,
        ensures
            final(verifier).step(*old(verifier)),
            r matches Ok(res) ==> call_exp_done(*old(verifier), *final(verifier), *exp, res),
            old(verifier).is_verified(exp.kind->Call_base.id) && (forall|i: int| 0 <= i < exp.kind->Call_arguments@.len()
                ==> old(verifier).is_verified((#[trigger] exp.kind->Call_arguments@[i]).id)) ==> r is Ok,
        decreases exp, 1nat,
    {
        let (base, args) = match &exp.kind {
            ExpressionKind::Call { base, arguments } => (base, arguments),
            _ => { proof { assert(false); } return Ok(None); },
        };
        proof {
            assert(decreases_to!(*exp => exp.kind));
            assert(decreases_to!(exp.kind => exp.kind->Call_arguments));
        }
        let ghost start = *verifier;
        let context = VerifierExpressionContext {
            context_type: None,
            followed_by_type_arguments: false,
            followed_by_call: true,
            mode: VerifyMode::Read,
            preceded_by_negative: false,
        };
        let b = verifier.verify_expression(base, &context)?;
        let ghost s1 = *verifier;
        let b = match b {
            None => {
                let v = verifier.verify_each(args);
                proof { lemma_step_trans(start, s1, *verifier); lemma_results_stable(s1, *verifier); }
                v?;
                return Ok(None);
            },
            Some(b) => b,
        };
        if let Some(t) = b.as_type() {
            let array = matches!(t, Ty::Array | Ty::ArrayOf(_));
            let date = matches!(t, Ty::Date);
            let v = if array || date {
                verifier.verify_each(args)
            } else {
                Self::verify_cast_arguments(verifier, args, &t)
            };
            proof { lemma_step_trans(start, s1, *verifier); }
            v?;
            let ghost s2 = *verifier;
            let result = if array {
                verifier.add_warning(&base.location, DiagnosticKind::CallOnArrayType);
                Entity::Value { ty: Ty::Array }
            } else if date {
                verifier.add_warning(&base.location, DiagnosticKind::CallOnDateType);
                Entity::Value { ty: Ty::String }
            } else {
                let ghost s2a = *verifier;
                if args.len() < 1 {
                    verifier.add_verify_error(&base.location, DiagnosticKind::IncorrectNumArguments(1));
                    proof {
                        lemma_reported_by_add(s2a, *verifier, base.location, DiagnosticKind::IncorrectNumArguments(1));
                        lemma_reported_widen(start, s2a, *verifier, *verifier, base.location, DiagnosticKind::IncorrectNumArguments(1));
                    }
                } else if args.len() > 1 {
                    verifier.add_verify_error(&base.location, DiagnosticKind::IncorrectNumArgumentsNoMoreThan(1));
                    proof {
                        lemma_reported_by_add(s2a, *verifier, base.location, DiagnosticKind::IncorrectNumArgumentsNoMoreThan(1));
                        lemma_reported_widen(start, s2a, *verifier, *verifier, base.location, DiagnosticKind::IncorrectNumArgumentsNoMoreThan(1));
                    }
                }
                Entity::Value { ty: t }
            };
            proof {
                lemma_step_trans(start, s2, *verifier);
                lemma_step_trans(s1, s2, *verifier);
                lemma_results_stable(s1, *verifier);
                lemma_types_between(start, s1, *verifier);
                assert(b.spec_as_type() == Some(t));
                assert(spec_call_result(s1.host.types@, b) == Some(result));
                assert(spec_call_warning(b) ==> warning_at(verifier.host.diagnostics@, base.location.first_offset));
                assert(spec_call_error(s1.host.types@, b, args@.len()) ==> verifier.spec_has_error_at(base.location));
            }
            return Ok(Some(result));
        }
        let st = b.static_type();
        let e = escape_of_non_nullable(&st);
        let sig = match verifier.host.get_def(&e) {
            Some(TypeDef::Function(ps, res)) => if params_are_arrays(ps) { Some((clone_params(ps), res.clone())) } else { None },
            _ => None,
        };
        if let Some((ps, res)) = sig {
            let outcome = ArgumentsSubverifier::verify(verifier, args, &ps);
            let ghost s2 = *verifier;
            let rep = report_arguments(verifier, outcome, &base.location);
            proof {
                lemma_step_trans(s1, s2, *verifier);
                lemma_step_trans(start, s1, *verifier);
                lemma_results_stable(s1, *verifier);
                lemma_types_between(start, s1, *verifier);
                assert(spec_call_signature(s1.host.types@, b) == Some((ps@, res)));
                assert(spec_call_result(s1.host.types@, b) == Some(Entity::Value { ty: res }));
            }
            rep?;
            proof {
                assert(spec_call_error(s1.host.types@, b, args@.len()) ==> verifier.spec_has_error_at(base.location));
            }
            return Ok(Some(Entity::Value { ty: res }));
        }
        let v = verifier.verify_each(args);
        proof { lemma_step_trans(start, s1, *verifier); }
        v?;
        let ghost s2 = *verifier;
        let result = if e.is(Ty::Class) || e.is(Ty::Any) || e.is(Ty::Object) || e.is(Ty::Function) {
            Some(Entity::Value { ty: Ty::Any })
        } else {
            verifier.add_verify_error(&base.location, DiagnosticKind::CallOnNonFunction);
            proof {
                lemma_reported_by_add(s2, *verifier, base.location, DiagnosticKind::CallOnNonFunction);
                lemma_reported_widen(start, s2, *verifier, *verifier, base.location, DiagnosticKind::CallOnNonFunction);
            }
            None
        };
        proof {
            lemma_step_trans(start, s2, *verifier);
            lemma_step_trans(s1, s2, *verifier);
            lemma_results_stable(s1, *verifier);
            lemma_types_between(start, s1, *verifier);
        }
        Ok(result)
    }
}

} // verus!
