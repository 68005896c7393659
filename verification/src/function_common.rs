//! Verification of what functions and lambdas have in common.
use vstd::prelude::*;
use crate::ast::{Location, Expression, ExpressionKind, QualifiedIdentifierIdentifier, Parameter, FunctionCommon, FunctionBody, FunctionSignature};
use crate::diagnostics::DiagnosticKind;
use crate::semantics::{Ty, Entity, Property, PropertyKind, FunctionParam, ParameterKind, ReferenceBase, ScopeKind, TypeDef, clone_opt_ty, array_element_type, promise_result_type, spec_array_element_type, spec_promise_result_type};
use crate::subverifier::{Subverifier, DeferError, default_context, reported, lemma_reported_by_add, lemma_reported_widen};
use crate::resolution::find_property;
use crate::directive::{DirectiveSubverifier, all_finished, is_phased, is_finished};
use crate::exp::{ExpSubverifier, lemma_step_trans, lemma_results_stable, lemma_scoped_step, lemma_progress_trans};

verus! {

broadcast use vstd::std_specs::hash::group_hash_axioms;

/// How many more times a deferred verification is retried.
pub const MAX_CYCLES: usize = 512;

/// What is known of a function while it is being resolved. The verifier
/// keeps these results in its tables, by `FunctionCommon` node, and writes
/// them back after every change, so that what a later step finds in a
/// table is what an earlier step learned.
pub struct VerifierFunctionPartials {
    pub activation: usize,
    pub name_span: Location,
    pub params: Option<Vec<FunctionParam>>,
    pub result_type: Option<Ty>,
    pub signature: Option<Ty>,
}

impl VerifierFunctionPartials {
    pub fn new(activation: usize, name_span: &Location) -> (r: Self)
        ensures
            r.activation == activation,
            r.name_span == *name_span,
            r.params is None,
            r.result_type is None,
            r.signature is None,
    {
        VerifierFunctionPartials { activation, name_span: *name_span, params: None, result_type: None, signature: None }
    }

    pub fn activation(&self) -> (r: usize)
        ensures
            r == self.activation,
    {
        self.activation
    }

    pub fn name_span(&self) -> (r: Location)
        ensures
            r == self.name_span,
    {
        self.name_span
    }

    pub fn params(&self) -> (r: &Option<Vec<FunctionParam>>)
        ensures
            r == &self.params,
    {
        &self.params
    }

    pub fn set_params(&mut self, list: Option<Vec<FunctionParam>>)
        ensures
            final(self).params == list,
            final(self).activation == old(self).activation,
            final(self).name_span == old(self).name_span,
            final(self).result_type == old(self).result_type,
            final(self).signature == old(self).signature,
    {
        self.params = list;
    }

    pub fn result_type(&self) -> (r: Option<Ty>)
        ensures
            r == self.result_type,
    {
        clone_opt_ty(&self.result_type)
    }

    pub fn set_result_type(&mut self, entity: Option<Ty>)
        ensures
            final(self).result_type == entity,
            final(self).activation == old(self).activation,
            final(self).name_span == old(self).name_span,
            final(self).params == old(self).params,
            final(self).signature == old(self).signature,
    {
        self.result_type = entity;
    }

    pub fn signature(&self) -> (r: Option<Ty>)
        ensures
            r == self.signature,
    {
        clone_opt_ty(&self.signature)
    }

    pub fn set_signature(&mut self, entity: Option<Ty>)
        ensures
            final(self).signature == entity,
            final(self).activation == old(self).activation,
            final(self).name_span == old(self).name_span,
            final(self).params == old(self).params,
            final(self).result_type == old(self).result_type,
    {
        self.signature = entity;
    }
}

/// Copies a list of function parameters.
pub fn clone_params(ps: &Vec<FunctionParam>) -> (r: Vec<FunctionParam>)
    ensures
        r@ == ps@,
{
    let mut r: Vec<FunctionParam> = Vec::new();
    let mut i: usize = 0;
    while i < ps.len()
        invariant
            i <= ps@.len(),
            r@ == ps@.take(i as int),
        decreases ps@.len() - i,
    {
        r.push(ps[i].clone_param());
        proof { assert(ps@.take(i + 1) =~= ps@.take(i as int).push(ps@[i as int])); }
        i = i + 1;
    }
    proof { assert(ps@.take(ps@.len() as int) =~= ps@); }
    r
}

/// Whether two partials hold the same results.
pub open spec fn same_partials(a: VerifierFunctionPartials, b: VerifierFunctionPartials) -> bool {
    &&& a.activation == b.activation
    &&& a.name_span == b.name_span
    &&& a.result_type == b.result_type
    &&& a.signature == b.signature
    &&& match (a.params, b.params) {
        (Some(x), Some(y)) => x@ == y@,
        (None, None) => true,
        _ => false,
    }
}

impl VerifierFunctionPartials {
    pub fn clone_partials(&self) -> (r: VerifierFunctionPartials)
        ensures
            same_partials(r, *self),
    {
        VerifierFunctionPartials {
            activation: self.activation,
            name_span: self.name_span,
            params: match &self.params {
                Some(ps) => Some(clone_params(ps)),
                None => None,
            },
            result_type: clone_opt_ty(&self.result_type),
            signature: clone_opt_ty(&self.signature),
        }
    }
}

/// Verification of what functions and lambdas have in common.
pub struct FunctionCommonSubverifier;

impl FunctionCommonSubverifier {
    /// Declares the binding `pattern` in the scope `scope` with the value
    /// `init`: a plain name becomes a variable of the scope, and a name the
    /// scope already defines is a definition conflict. The pattern node is
    /// mapped to the variable.
    pub fn declare_pattern(verifier: &mut Subverifier, scope: usize, pattern: &Expression, init: &Entity, read_only: bool)
        requires
            scope < old(verifier).host.scopes@.len(),
        ensures
            final(verifier).step(*old(verifier)),
            final(verifier).host.node_mapping@.contains_key(pattern.id),
            final(verifier).host.types == old(verifier).host.types,
    {
        if verifier.host.node_mapping.contains_key(&pattern.id) {
            return;
        }
        let name = match &pattern.kind {
            ExpressionKind::QualifiedIdentifier(q) => {
                if q.qualifier.is_none() && !q.attribute {
                    match &q.id {
                        QualifiedIdentifierIdentifier::Id(n, _) => Some(n),
                        _ => None,
                    }
                } else {
                    None
                }
            },
            _ => None,
        };
        let name = match name {
            None => {
                verifier.map_node(pattern.id, Some(init.clone()));
                return;
            },
            Some(n) => n,
        };
        let prop = Property {
            name: name.clone(),
            kind: PropertyKind::Variable { static_type: init.static_type(), read_only, write_only: false, constant: None },
            has_capture: false,
            location: Some(pattern.location),
        };
        match find_property(&verifier.host.scopes[scope].properties, name) {
            Some(i) => {
                let prev = verifier.host.scopes[scope].properties[i].clone_property();
                let ghost s1 = *verifier;
                verifier.handle_definition_conflict(&prev, &prop);
                let ghost s2 = *verifier;
                verifier.map_node(pattern.id, None);
                proof { lemma_step_trans(*old(verifier), s2, *verifier); }
            },
            None => {
                let index = verifier.host.scopes[scope].properties.len();
                let r = Entity::PropertyReference {
                    base: ReferenceBase::Scope { scope, index },
                    name: name.clone(),
                    property: Box::new(crate::semantics::clone_property_kind(&prop.kind)),
                };
                verifier.host.add_scope_property(scope, prop);
                let ghost s1 = *verifier;
                proof {
                    assert(s1.step(*old(verifier)));
                }
                verifier.map_node(pattern.id, Some(r));
                proof { lemma_step_trans(*old(verifier), s1, *verifier); }
            },
        }
    }
}

/// The kind of the parameter before the one at `i`, `Required` for the first.
pub open spec fn spec_param_prev_kind(params: Seq<Parameter>, i: int) -> ParameterKind {
    if i == 0 { ParameterKind::Required } else { params[i - 1].kind }
}

/// Whether the parameter at `i` is declared: the kind of the parameter
/// before it may be followed by its kind.
pub open spec fn spec_param_accepted(params: Seq<Parameter>, i: int) -> bool {
    spec_param_prev_kind(params, i).spec_may_be_followed_by(params[i].kind)
}

/// The kinds of the declared parameters among the first `n`.
pub open spec fn spec_accepted_kinds(params: Seq<Parameter>, n: int) -> Seq<ParameterKind>
    decreases n,
{
    if n <= 0 {
        Seq::empty()
    } else if spec_param_accepted(params, n - 1) {
        spec_accepted_kinds(params, n - 1).push(params[n - 1].kind)
    } else {
        spec_accepted_kinds(params, n - 1)
    }
}

/// The kinds of a list of function type parameters.
pub open spec fn param_kinds(ps: Seq<FunctionParam>) -> Seq<ParameterKind> {
    ps.map_values(|p: FunctionParam| p.kind)
}

/// Whether every rest parameter of a list has an array type.
pub open spec fn rest_params_have_array_types(ps: Seq<FunctionParam>) -> bool {
    forall|j: int| 0 <= j < ps.len() && (#[trigger] ps[j]).kind == ParameterKind::Rest
        ==> spec_array_element_type(ps[j].static_type) is Some
}

/// The result type of an asynchronous function: a `Promise`, or
/// `Promise.<INVALIDATED>` in place of any other type.
pub open spec fn spec_async_result_type(t: Ty) -> Ty {
    if spec_promise_result_type(t) is Some { t } else { Ty::PromiseOf(Box::new(Ty::Invalidation)) }
}

/// The type annotation and the default value of a parameter, where it has
/// them, have been verified in `v`.
pub open spec fn param_operands_verified(v: Subverifier, p: Parameter) -> bool {
    &&& match p.type_annotation {
        Some(a) => v.is_verified(a.id),
        None => true,
    }
    &&& match p.default_value {
        Some(d) => v.is_verified(d.id),
        None => true,
    }
}

/// Every parameter of `params` has its annotation and default value verified in `v`.
pub open spec fn params_operands_verified(v: Subverifier, params: Seq<Parameter>) -> bool {
    forall|i: int| 0 <= i < params.len() ==> param_operands_verified(v, #[trigger] params[i])
}

/// What is verified of the parameters stays verified as verification goes on.
pub proof fn lemma_params_operands_stable(a: Subverifier, b: Subverifier, params: Seq<Parameter>)
    requires
        params_operands_verified(a, params),
        b.progress(a),
    ensures
        params_operands_verified(b, params),
{
    assert forall|i: int| 0 <= i < params.len() implies param_operands_verified(b, #[trigger] params[i]) by {
        assert(param_operands_verified(a, params[i]));
        if let Some(x) = params[i].type_annotation { assert(a.is_verified(x.id)); }
        if let Some(x) = params[i].default_value { assert(a.is_verified(x.id)); }
    }
}

/// The `this` parameter, the parameters and the result type of a function
/// signature, where it has them, have been verified in `v`.
pub open spec fn signature_operands_verified(v: Subverifier, sig: FunctionSignature) -> bool {
    &&& match sig.this_parameter {
        Some(tp) => v.is_verified(tp.id),
        None => true,
    }
    &&& params_operands_verified(v, sig.parameters@)
    &&& match sig.result_type {
        Some(rt) => v.is_verified(rt.id),
        None => true,
    }
}

/// The body of a function is left as it is by its verification: a block
/// whose directives have all finished, an expression already verified, or
/// no body.
pub open spec fn body_settled(v: Subverifier, body: Option<FunctionBody>) -> bool {
    match body {
        Some(FunctionBody::Block(b)) => all_finished(v, b.directives@),
        Some(FunctionBody::Expression(e)) => v.is_verified(e.id),
        None => true,
    }
}

/// What verifying the body of a function establishes once it no longer
/// defers: an expression body has been verified; of a block, the last
/// directive, where it goes through phases, has finished.
pub open spec fn body_done(v: Subverifier, body: Option<FunctionBody>) -> bool {
    match body {
        Some(FunctionBody::Block(b)) => b.directives@.len() > 0 && is_phased(b.directives@.last().kind)
            && !(b.directives@.last().kind is Configuration) ==> is_finished(v, b.directives@.last().id),
        Some(FunctionBody::Expression(e)) => v.is_verified(e.id),
        None => true,
    }
}

/// The signature recorded for a function, where there is one, is a function
/// type of the database over the recorded parameters.
pub open spec fn partials_consistent(v: Subverifier, p: VerifierFunctionPartials) -> bool {
    match p.signature {
        Some(s) => match v.host.def_of(s) {
            Some(TypeDef::Function(ps, _)) => p.params is Some && ps@ == p.params.unwrap()@,
            _ => false,
        },
        None => true,
    }
}

/// Whether the scope `s` of `v` has a property named `name`.
pub open spec fn scope_declares(v: Subverifier, s: usize, name: Seq<char>) -> bool {
    &&& s < v.host.scopes@.len()
    &&& exists|j: int| 0 <= j < v.host.scopes@[s as int].properties@.len()
        && (#[trigger] v.host.scopes@[s as int].properties@[j]).name@ == name
}

/// A function type recorded in the type table stays so.
pub proof fn lemma_def_of_stable(a: Subverifier, b: Subverifier, t: Ty)
    requires
        b.progress(a),
        a.host.def_of(t) is Some,
    ensures
        b.host.def_of(t) == a.host.def_of(t),
{
    match t {
        Ty::Def(i) => { assert(b.host.types@[i as int] == a.host.types@[i as int]); },
        Ty::AppliedToAny(i) => { assert(b.host.types@[i as int] == a.host.types@[i as int]); },
        _ => {},
    }
}

impl FunctionCommonSubverifier {
    /// Verifies one parameter: its type (`*` without annotation, `Array.<*>`
    /// for a rest parameter without one) and its initial value, which for an
    /// optional parameter is its default value coerced to its type and must
    /// be a compile-time constant. A rest parameter whose type is not an
    /// array is an error and takes `Array.<INVALIDATED>`.
    fn verify_parameter(verifier: &mut Subverifier, param: &Parameter) -> (r: Result<(Ty, Entity), DeferError>)
        requires
            old(verifier).scope is Some,
        ensures
            final(verifier).step(*old(verifier)),
            match r {
                Ok((t, _)) => {
                    &&& param.kind == ParameterKind::Rest ==> spec_array_element_type(t) is Some
                    &&& param.kind != ParameterKind::Rest && param.type_annotation is None ==> t == Ty::Any
                    &&& param.kind == ParameterKind::Rest && param.type_annotation is None ==> t == Ty::ArrayOf(Box::new(Ty::Any))
                },
                Err(_) => true,
            },
            param.kind != ParameterKind::Optional ==> match r {
                Ok((t, init)) => init == (Entity::Value { ty: t }),
                Err(_) => true,
            },
            param_operands_verified(*old(verifier), *param) ==> r is Ok,
            r is Ok && param.kind == ParameterKind::Rest ==> match param.type_annotation {
                Some(a) => match crate::exp::type_result(*final(verifier), a.id) {
                    Some(tt) => spec_array_element_type(tt) is None
                        ==> reported(*old(verifier), *final(verifier), a.location, DiagnosticKind::RestParameterMustBeArray),
                    None => true,
                },
                None => true,
            },
        decreases param, 0nat,
    {
        let ghost start = *verifier;
        proof {
            assert(decreases_to!(*param => param.type_annotation));
            assert(decreases_to!(*param => param.default_value));
        }
        let param_type = match &param.type_annotation {
            Some(a) => {
                proof { assert(decreases_to!(param.type_annotation => param.type_annotation->0)); }
                let t = verifier.verify_type_expression(a)?;
                match param.kind {
                    ParameterKind::Rest => {
                        let t = match t {
                            Some(t) => t,
                            None => Ty::ArrayOf(Box::new(Ty::Invalidation)),
                        };
                        if array_element_type(&t).is_none() {
                            let ghost s1 = *verifier;
                            verifier.add_verify_error(&a.location, DiagnosticKind::RestParameterMustBeArray);
                            proof {
                                lemma_step_trans(start, s1, *verifier);
                                crate::subverifier::lemma_reported_by_add(s1, *verifier, a.location, DiagnosticKind::RestParameterMustBeArray);
                                crate::subverifier::lemma_reported_widen(start, s1, *verifier, *verifier, a.location,
                                    DiagnosticKind::RestParameterMustBeArray);
                            }
                            Ty::ArrayOf(Box::new(Ty::Invalidation))
                        } else {
                            t
                        }
                    },
                    _ => match t {
                        Some(t) => t,
                        None => Ty::Invalidation,
                    },
                }
            },
            None => match param.kind {
                ParameterKind::Rest => Ty::ArrayOf(Box::new(Ty::Any)),
                _ => Ty::Any,
            },
        };
        if param.kind != ParameterKind::Optional {
            return Ok((param_type.clone(), Entity::Value { ty: param_type }));
        }
        if let Some(init) = verifier.cached_var_init.get(&param.pattern.id) {
            let init = init.clone();
            return Ok((param_type, init));
        }
        let ghost s2 = *verifier;
        let init = match &param.default_value {
            Some(d) => {
                proof { assert(decreases_to!(param.default_value => param.default_value->0)); }
                let v = verifier.imp_coerce_exp(d, &param_type);
                proof { lemma_step_trans(start, s2, *verifier); }
                let init = match v? {
                    Some(v) => v,
                    None => Entity::Invalidation,
                };
                if !init.is_invalidation() && !init.constant() {
                    let ghost s3 = *verifier;
                    verifier.add_verify_error(&d.location, DiagnosticKind::EntityIsNotAConstant);
                    proof { lemma_step_trans(start, s3, *verifier); }
                }
                init
            },
            None => Entity::Value { ty: param_type.clone() },
        };
        verifier.cached_var_init.insert(param.pattern.id, init.clone());
        Ok((param_type, init))
    }

    /// Verifies the parameters of a function and declares them in its
    /// activation; a parameter that may not follow the one before it is
    /// left out. Gives the parameters of the function's type.
    pub fn verify_parameters(verifier: &mut Subverifier, activation: usize, params: &Vec<Parameter>)
        -> (r: Result<Vec<FunctionParam>, DeferError>)
        requires
            old(verifier).scope is Some,
            activation < old(verifier).host.scopes@.len(),
        ensures
            final(verifier).step(*old(verifier)),
            r matches Ok(ps) ==> param_kinds(ps@) == spec_accepted_kinds(params@, params@.len() as int),
            r matches Ok(ps) ==> rest_params_have_array_types(ps@),
            r is Ok ==> forall|i: int| 0 <= i < params@.len() && spec_param_accepted(params@, i)
                ==> final(verifier).host.node_mapping@.contains_key((#[trigger] params@[i]).pattern.id),
            params_operands_verified(*old(verifier), params@) ==> r is Ok,
        decreases params, 0nat,
    {
        let ghost start = *verifier;
        let mut ps: Vec<FunctionParam> = Vec::new();
        let mut last = ParameterKind::Required;
        let mut k: usize = 0;
        while k < params.len()
            invariant
                k <= params@.len(),
                start == *old(verifier),
                verifier.step(start),
                verifier.scope is Some,
                activation < verifier.host.scopes@.len(),
                last == spec_param_prev_kind(params@, k as int),
                param_kinds(ps@) == spec_accepted_kinds(params@, k as int),
                rest_params_have_array_types(ps@),
                forall|i: int| 0 <= i < k && spec_param_accepted(params@, i)
                    ==> verifier.host.node_mapping@.contains_key((#[trigger] params@[i]).pattern.id),
                params_operands_verified(start, params@) ==> params_operands_verified(*verifier, params@),
            decreases params@.len() - k,
        {
            let ghost before = *verifier;
            proof {
                assert(decreases_to!(*params => params@));
                assert(decreases_to!(params@ => params@[k as int]));
            }
            let p = &params[k];
            let v = Self::verify_parameter(verifier, p);
            proof {
                lemma_step_trans(start, before, *verifier);
                if params_operands_verified(start, params@) {
                    assert(param_operands_verified(before, params@[k as int]));
                    lemma_params_operands_stable(before, *verifier, params@);
                }
            }
            let (param_type, init) = v?;
            let ghost s1 = *verifier;
            if last.may_be_followed_by(p.kind) {
                Self::declare_pattern(verifier, activation, &p.pattern, &init, false);
                proof {
                    lemma_step_trans(start, s1, *verifier);
                    if params_operands_verified(start, params@) {
                        lemma_params_operands_stable(s1, *verifier, params@);
                    }
                }
                let ghost ps0 = ps@;
                ps.push(FunctionParam { kind: p.kind, static_type: param_type });
                proof {
                    assert(param_kinds(ps@) =~= param_kinds(ps0).push(p.kind));
                }
                verifier.cached_var_init.remove(&p.pattern.id);
            }
            proof {
                assert(spec_accepted_kinds(params@, k + 1) == if spec_param_accepted(params@, k as int) {
                    spec_accepted_kinds(params@, k as int).push(params@[k as int].kind)
                } else {
                    spec_accepted_kinds(params@, k as int)
                });
                assert forall|i: int| 0 <= i < k + 1 && spec_param_accepted(params@, i)
                    implies verifier.host.node_mapping@.contains_key((#[trigger] params@[i]).pattern.id) by {
                    if i < k {
                        assert(before.host.node_mapping@.contains_key(params@[i].pattern.id));
                    }
                }
            }
            last = p.kind;
            k = k + 1;
        }
        Ok(ps)
    }

    /// Verifies the body of a function definition in its activation: the
    /// directives of a block body in a scope of the block's own, or an
    /// expression body coerced to the result type when there is one. The
    /// partial results kept for the function are dropped once done.
    pub fn verify_function_definition_common(verifier: &mut Subverifier, common: &FunctionCommon, partials: &VerifierFunctionPartials)
        -> (r: Result<(), DeferError>)
        requires
            old(verifier).scope is Some,
            partials.activation < old(verifier).host.scopes@.len(),
        ensures
            final(verifier).step(*old(verifier)),
            r is Ok ==> !final(verifier).function_definition_partials@.contains_key(common.id),
            r is Ok ==> match common.body {
                Some(FunctionBody::Expression(e)) => {
                    &&& final(verifier).host.node_mapping@.contains_key(e.id)
                    &&& partials.result_type is Some && !old(verifier).host.node_mapping@.contains_key(e.id)
                        && final(verifier).result_of(e.id) is Some
                        ==> final(verifier).result_of(e.id).unwrap().spec_static_type() == partials.result_type.unwrap()
                },
                _ => true,
            },
            body_settled(*old(verifier), common.body) ==> r is Ok,
            r is Ok ==> body_done(*final(verifier), common.body),
        decreases common, 0nat,
    {
        let ghost start = *verifier;
        let saved = verifier.scope;
        verifier.set_scope(partials.activation);
        let ghost s1 = *verifier;
        proof { assert(decreases_to!(*common => common.body)); }
        let r = match &common.body {
            Some(FunctionBody::Block(block)) => {
                proof { assert(decreases_to!(common.body => common.body->0)); }
                let bs = verifier.scope_for_node(block.id);
                let ghost s2 = *verifier;
                verifier.inherit_and_enter_scope(bs);
                let ghost s3 = *verifier;
                let r = DirectiveSubverifier::verify_directives(verifier, &block.directives);
                let ghost s4 = *verifier;
                verifier.exit_scope();
                proof {
                    lemma_progress_trans(s1, s2, s3);
                    lemma_progress_trans(s1, s3, s4);
                    lemma_progress_trans(s1, s4, *verifier);
                }
                r
            },
            Some(FunctionBody::Expression(e)) => {
                proof { assert(decreases_to!(common.body => common.body->0)); }
                let r = match &partials.result_type {
                    Some(t) => verifier.imp_coerce_exp(e, t),
                    None => verifier.verify_expression(e, &default_context()),
                };
                match r {
                    Ok(_) => Ok(()),
                    Err(d) => Err(d),
                }
            },
            None => Ok(()),
        };
        let ghost s5 = *verifier;
        verifier.scope = saved;
        proof {
            lemma_progress_trans(start, s1, s5);
            lemma_progress_trans(start, s5, *verifier);
            lemma_results_stable(s5, *verifier);
        }
        r?;
        verifier.function_definition_partials.remove(&common.id);
        Ok(())
    }
}

impl FunctionCommonSubverifier {
    /// Verifies the body of a lambda in its activation. The function's type
    /// is made as soon as its result type is known; an asynchronous
    /// function whose result type is not a `Promise` is an error and takes
    /// `Promise.<INVALIDATED>`. Without a result type, the result type is
    /// not inferred: a warning says so, and `*` (`Promise.<*>` for an
    /// asynchronous function) is taken. Gives the function's type.
    #[verifier::spinoff_prover]
    pub fn verify_function_exp_common(verifier: &mut Subverifier, common: &FunctionCommon, partials: &mut VerifierFunctionPartials)
        -> (r: Result<Ty, DeferError>)
        requires
            old(verifier).scope is Some,
            old(partials).activation < old(verifier).host.scopes@.len(),
            old(partials).params is Some,
        ensures
            final(verifier).step(*old(verifier)),
            final(partials).activation == old(partials).activation,
            final(partials).params == old(partials).params,
            final(partials).result_type == old(partials).result_type,
            old(partials).signature is Some ==> final(partials).signature == old(partials).signature,
            match r {
                Ok(sig) => old(partials).signature is None ==> match final(verifier).host.def_of(sig) {
                    Some(crate::semantics::TypeDef::Function(ps, res)) => {
                        &&& ps@ == old(partials).params.unwrap()@
                        &&& common.contains_await ==> spec_promise_result_type(res) is Some
                        &&& (old(partials).result_type is Some && !common.contains_await) ==> res == old(partials).result_type.unwrap()
                        &&& old(partials).result_type is None ==> res == (if common.contains_await {
                            Ty::PromiseOf(Box::new(Ty::Any)) } else { Ty::Any })
                    },
                    _ => false,
                },
                Err(_) => true,
            },
            body_settled(*old(verifier), common.body) ==> r is Ok,
            r is Ok ==> body_done(*final(verifier), common.body),
            r is Ok ==> !final(verifier).deferred_function_exp@.contains_key(common.id),
            old(partials).result_type is Some ==> final(partials).signature is Some,
            partials_consistent(*old(verifier), *old(partials)) ==> partials_consistent(*final(verifier), *final(partials))
                && (r matches Ok(sig) ==> match final(verifier).host.def_of(sig) {
                    Some(TypeDef::Function(ps, _)) => ps@ == old(partials).params.unwrap()@,
                    _ => false,
                }),
        decreases common, 0nat,
    {
        let ghost start = *verifier;
        let saved = verifier.scope;
        let name_span = partials.name_span;
        if partials.signature.is_none() && partials.result_type.is_some() {
            let mut result_type = partials.result_type().unwrap();
            if common.contains_await && promise_result_type(&result_type).is_none() {
                let ghost s0 = *verifier;
                verifier.add_verify_error(&name_span, DiagnosticKind::ReturnTypeDeclarationMustBePromise);
                proof { lemma_step_trans(start, s0, *verifier); }
                result_type = Ty::PromiseOf(Box::new(Ty::Invalidation));
            }
            let params = clone_params(partials.params.as_ref().unwrap());
            let ghost s0 = *verifier;
            let sig = verifier.host.create_function_type(params, result_type);
            proof { lemma_step_trans(start, s0, *verifier); }
            partials.set_signature(Some(sig));
        }
        let ghost s0 = *verifier;
        let ghost p0 = *partials;
        verifier.set_scope(partials.activation);
        let ghost s1 = *verifier;
        proof { assert(decreases_to!(*common => common.body)); }
        let r = match &common.body {
            Some(FunctionBody::Block(block)) => {
                proof { assert(decreases_to!(common.body => common.body->0)); }
                let bs = verifier.scope_for_node(block.id);
                let ghost s2 = *verifier;
                verifier.inherit_and_enter_scope(bs);
                let ghost s3 = *verifier;
                let r = DirectiveSubverifier::verify_directives(verifier, &block.directives);
                let ghost s4 = *verifier;
                verifier.exit_scope();
                proof {
                    lemma_progress_trans(s1, s2, s3);
                    lemma_progress_trans(s1, s3, s4);
                    lemma_progress_trans(s1, s4, *verifier);
                }
                r
            },
            Some(FunctionBody::Expression(e)) => {
                proof { assert(decreases_to!(common.body => common.body->0)); }
                let r = match &partials.result_type {
                    Some(t) => verifier.imp_coerce_exp(e, t),
                    None => verifier.verify_expression(e, &default_context()),
                };
                match r {
                    Ok(_) => Ok(()),
                    Err(d) => Err(d),
                }
            },
            None => Ok(()),
        };
        let ghost s5 = *verifier;
        verifier.scope = saved;
        proof {
            lemma_progress_trans(s0, s1, s5);
            lemma_progress_trans(s0, s5, *verifier);
            lemma_step_trans(start, s0, *verifier);
        }
        proof {
            if partials_consistent(s0, p0) {
                if let Some(sg) = p0.signature {
                    lemma_def_of_stable(s0, *verifier, sg);
                }
            }
        }
        r?;
        let ghost s6 = *verifier;
        let sig = match partials.signature() {
            Some(sig) => sig,
            None => {
                verifier.add_warning(&name_span, DiagnosticKind::ReturnTypeInferenceIsNotImplemented);
                let result_type = if common.contains_await { Ty::PromiseOf(Box::new(Ty::Any)) } else { Ty::Any };
                let params = clone_params(partials.params.as_ref().unwrap());
                verifier.host.create_function_type(params, result_type)
            },
        };
        proof { lemma_step_trans(start, s6, *verifier); }
        verifier.deferred_function_exp.remove(&common.id);
        Ok(sig)
    }
}

/// What a lambda gives: the lambda object over an activation of its own,
/// in which a named lambda declares its name.
pub open spec fn function_exp_done(old: Subverifier, new: Subverifier, exp: Expression, res: Option<Entity>) -> bool {
    match res {
        Some(Entity::LambdaObject { activation, .. }) => {
            &&& activation < new.host.scopes@.len()
            &&& new.host.scopes@[activation as int].kind is Activation
            &&& match exp.kind->Function_name {
                Some((n, _)) => scope_declares(new, activation, n@),
                None => true,
            }
        },
        _ => false,
    }
}

impl ExpSubverifier {
    /// Verifies a lambda. Its activation takes `this` from the `this`
    /// parameter's type, or from the enclosing activation, or `*`. A named
    /// lambda declares its own name in its activation. Its body is verified
    /// again while it defers, up to `MAX_CYCLES` more times, after which
    /// the lambda is reported. Gives the lambda object, with the lambda's
    /// type when verifying its body got that far.
    #[verifier::spinoff_prover]
    #[verifier::rlimit(60)]
    pub fn verify_function_exp(verifier: &mut Subverifier, exp: &Expression) -> (r: Result<Option<Entity>, DeferError>)
        requires
            old(verifier).scope is Some,
            exp.kind is Function,
        ensures
            final(verifier).step(*old(verifier)),
            match r {
                Ok(Some(Entity::LambdaObject { activation, .. })) => activation < final(verifier).host.scopes@.len()
                    && final(verifier).host.scopes@[activation as int].kind is Activation,
                Ok(Some(_)) => false,
                _ => true,
            },
            (match exp.kind->Function_common.signature.this_parameter { Some(tp) => old(verifier).is_verified(tp.id), None => true })
                && params_operands_verified(*old(verifier), exp.kind->Function_common.signature.parameters@)
                && (match exp.kind->Function_common.signature.result_type { Some(rt) => old(verifier).is_verified(rt.id), None => true })
                ==> r is Ok,
            r matches Ok(Some(_)) ==> body_done(*final(verifier), exp.kind->Function_common.body)
                || reported(*old(verifier), *final(verifier), exp.kind->Function_common.location, DiagnosticKind::ReachedMaximumCycles),
            match (exp.kind->Function_name, r) {
                (Some((n, _)), Ok(Some(Entity::LambdaObject { activation, .. }))) => scope_declares(*final(verifier), activation, n@),
                _ => true,
            },
            r is Ok ==> r matches Ok(Some(Entity::LambdaObject { .. })),
            r matches Ok(res) ==> function_exp_done(*old(verifier), *final(verifier), *exp, res),
            match r {
                Ok(Some(Entity::LambdaObject { signature, .. })) =>
                    final(verifier).deferred_function_exp@.contains_key(exp.kind->Function_common.id)
                    ==> final(verifier).deferred_function_exp@[exp.kind->Function_common.id].signature == signature,
                _ => true,
            },
            !old(verifier).deferred_function_exp@.contains_key(exp.kind->Function_common.id) ==> match r {
                Ok(Some(Entity::LambdaObject { signature, .. })) => {
                    &&& (signature matches Some(sig) ==> final(verifier).host.def_of(sig) matches Some(TypeDef::Function(_, _)))
                    &&& (exp.kind->Function_common.signature.result_type is Some ==> signature is Some)
                },
                _ => true,
            },
        decreases exp, 1nat,
    {
        let ghost start = *verifier;
        let (name, common) = match &exp.kind {
            ExpressionKind::Function { name, common } => (name, common),
            _ => { proof { assert(false); } return Ok(None); },
        };
        proof {
            assert(decreases_to!(*exp => exp.kind));
            assert(decreases_to!(exp.kind => exp.kind->Function_common));
            assert(decreases_to!(*common => common.signature));
            assert(decreases_to!(common.signature => common.signature.this_parameter));
            assert(decreases_to!(common.signature => common.signature.parameters));
            assert(decreases_to!(common.signature => common.signature.result_type));
        }
        let kscope = verifier.scope;
        let name_span = match name {
            Some((_, l)) => *l,
            None => exp.location,
        };
        let stored = match verifier.deferred_function_exp.get(&common.id) {
            Some(p) => if p.activation < verifier.host.scopes.len()
                && matches!(verifier.host.scopes[p.activation].kind, ScopeKind::Activation { .. }) {
                Some(p.clone_partials())
            } else {
                None
            },
            None => None,
        };
        let ghost fresh = stored is None;
        let mut partials = match stored {
            Some(p) => p,
            None => {
                let this_type = match &common.signature.this_parameter {
                    Some(tp) => {
                        proof { assert(decreases_to!(common.signature.this_parameter => common.signature.this_parameter->0)); }
                        match verifier.verify_type_expression(tp)? {
                            Some(t) => t,
                            None => Ty::Any,
                        }
                    },
                    None => match verifier.this_type() {
                        Some(t) => t,
                        None => Ty::Any,
                    },
                };
                let ghost s0 = *verifier;
                let act = verifier.host.create_scope(ScopeKind::Activation { this_type: Some(this_type) });
                proof { lemma_step_trans(start, s0, *verifier); }
                let p = VerifierFunctionPartials::new(act, &name_span);
                verifier.deferred_function_exp.insert(common.id, p.clone_partials());
                p
            },
        };
        let activation = partials.activation;
        let ghost s1 = *verifier;
        verifier.inherit_and_enter_scope(activation);
        let ghost s2 = *verifier;
        if let Some((n, _)) = name {
            if find_property(&verifier.host.scopes[activation].properties, n).is_none() {
                verifier.host.add_scope_property(activation, Property {
                    name: n.clone(),
                    kind: PropertyKind::Variable { static_type: Ty::Function, read_only: false, write_only: false, constant: None },
                    has_capture: false,
                    location: None,
                });
                proof {
                    assert forall|i: int| 0 <= i < s2.host.scopes@.len() implies {
                        &&& (#[trigger] verifier.host.scopes@[i]).kind == s2.host.scopes@[i].kind
                        &&& s2.host.scopes@[i].parent is Some ==> verifier.host.scopes@[i].parent == s2.host.scopes@[i].parent
                    } by {
                        if i != activation {
                            assert(verifier.host.scopes@[i] == s2.host.scopes@[i]);
                        }
                    }
                }
            }
        }
        let ghost s3 = *verifier;
        proof {
            if let Some((n, _)) = name {
                if let Some(j) = crate::resolution::spec_find_property(s2.host.scopes@[activation as int].properties@, n@) {
                    crate::resolution::lemma_found_property_named(s2.host.scopes@[activation as int].properties@, n@);
                    assert(s3.host.scopes@[activation as int].properties@[j].name@ == n@);
                } else {
                    let k = s2.host.scopes@[activation as int].properties@.len() as int;
                    assert(s3.host.scopes@[activation as int].properties@[k].name@ == n@);
                }
                assert(scope_declares(s3, activation, n@));
            }
        }
        if partials.params.is_none() {
            let r = FunctionCommonSubverifier::verify_parameters(verifier, activation, &common.signature.parameters);
            match r {
                Ok(ps) => partials.set_params(Some(ps)),
                Err(d) => {
                    let ghost s4 = *verifier;
                    verifier.scope = kscope;
                    proof { lemma_scoped_step(s1, s3, s4, *verifier); lemma_step_trans(start, s1, *verifier); }
                    return Err(d);
                },
            }
        }
        if let Some(annot) = &common.signature.result_type {
            if partials.result_type.is_none() {
                proof { assert(decreases_to!(common.signature.result_type => common.signature.result_type->0)); }
                let r = verifier.verify_type_expression(annot);
                match r {
                    Ok(t) => partials.set_result_type(Some(match t {
                        Some(t) => t,
                        None => Ty::Invalidation,
                    })),
                    Err(d) => {
                        verifier.deferred_function_exp.insert(common.id, partials.clone_partials());
                        let ghost s4 = *verifier;
                        verifier.scope = kscope;
                        proof { lemma_scoped_step(s1, s3, s4, *verifier); lemma_step_trans(start, s1, *verifier); }
                        return Err(d);
                    },
                }
            }
        }
        verifier.deferred_function_exp.insert(common.id, partials.clone_partials());
        let ghost s5 = *verifier;
        let mut r = FunctionCommonSubverifier::verify_function_exp_common(verifier, common, &mut partials);
        let mut cycles: usize = 0;
        while r.is_err() && cycles < MAX_CYCLES
            invariant
                verifier.step(s5),
                partials.activation == activation,
                partials.params is Some,
                activation < verifier.host.scopes@.len(),
                verifier.scope is Some,
                exp.kind is Function,
                exp.kind->Function_common == *common,
                r is Ok ==> body_done(*verifier, common.body),
                r is Ok ==> !verifier.deferred_function_exp@.contains_key(common.id),
                fresh ==> partials_consistent(*verifier, partials),
                fresh && common.signature.result_type is Some ==> partials.signature is Some,
                fresh ==> match r {
                    Ok(sig) => verifier.host.def_of(sig) matches Some(TypeDef::Function(_, _)),
                    Err(_) => true,
                },
            decreases MAX_CYCLES - cycles,
        {
            let ghost before = *verifier;
            proof {
                assert(decreases_to!(*exp => exp.kind));
                assert(decreases_to!(exp.kind => exp.kind->Function_common));
            }
            r = FunctionCommonSubverifier::verify_function_exp_common(verifier, common, &mut partials);
            proof { lemma_step_trans(s5, before, *verifier); }
            cycles = cycles + 1;
        }
        if r.is_err() {
            let ghost before = *verifier;
            verifier.deferred_function_exp.insert(common.id, partials.clone_partials());
            proof { lemma_step_trans(s5, before, *verifier); }
        }
        let ghost s6 = *verifier;
        if r.is_err() {
            let ghost before = *verifier;
            verifier.add_verify_error(&common.location, DiagnosticKind::ReachedMaximumCycles);
            proof {
                lemma_step_trans(s5, before, *verifier);
                lemma_reported_by_add(before, *verifier, common.location, DiagnosticKind::ReachedMaximumCycles);
            }
        }
        let ghost s7 = *verifier;
        let signature = match r {
            Ok(sig) => Some(sig),
            Err(_) => partials.signature(),
        };
        proof { lemma_step_trans(s3, s5, *verifier); }
        let ghost s4 = *verifier;
        verifier.scope = kscope;
        proof {
            lemma_scoped_step(s1, s3, s4, *verifier);
            lemma_step_trans(start, s1, *verifier);
            lemma_progress_trans(s3, s4, *verifier);
            if let Some((n, _)) = name {
                let j = choose|j: int| 0 <= j < s3.host.scopes@[activation as int].properties@.len()
                    && (#[trigger] s3.host.scopes@[activation as int].properties@[j]).name@ == n@;
                assert(verifier.host.scopes@[activation as int].properties@[j].name == s3.host.scopes@[activation as int].properties@[j].name);
            }
            lemma_step_trans(s3, s5, s6);
            lemma_progress_trans(start, s1, s3);
            lemma_progress_trans(start, s3, s6);
            assert(verifier.progress(s7));
            if r.is_err() {
                lemma_reported_widen(start, s6, s7, *verifier, common.location, DiagnosticKind::ReachedMaximumCycles);
            }
        }
        Ok(Some(Entity::LambdaObject { activation, signature }))
    }
}
} // verus!
