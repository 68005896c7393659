//! The verifier: its state, its diagnostics, scopes and phases, and the
//! dispatch of expression verification.
use vstd::prelude::*;
use std::collections::HashMap;
use crate::ast::{Location, Expression, ExpressionKind, Directive, Block};
use crate::diagnostics::{Diagnostic, DiagnosticKind};
use crate::semantics::{Ty, TypeDef, Entity, Property, PropertyKind, Scope, ScopeKind, SystemNamespaceKind, Database,
    ReferenceBase, clone_opt};
use crate::exp::ExpSubverifier;
use crate::resolution::spec_implicit;
use crate::exp_names::{spec_inline_constant, spec_eval_config};
use crate::object_literal::ObjectLiteralSubverifier;
use crate::array::{ArraySubverifier, has_no_elision, no_elision};
use crate::exp_ops::{unary_operator, binary_operator, compound_assignment_operator, is_unary_operator, is_binary_operator, is_compound_assignment_operator};
use crate::function_common::{VerifierFunctionPartials, params_operands_verified};
use crate::exp_names::qid_operands_verified;
use crate::resolution::spec_result_defers;
use crate::exp_access::{xml_elem_verified, xml_contents_verified};
use crate::array::elements_verified;
use crate::object_literal::fields_operands_verified;
use crate::exp_types::ftp_settled;
use crate::exp_ops::spec_destructuring_lhs;
use crate::assignment_destructuring::pattern_settled;

verus! {

broadcast use vstd::std_specs::hash::group_hash_axioms;

/// Verification of a node could not finish yet and is to be retried.
#[derive(Clone, Copy, PartialEq, Eq, Structural, Debug)]
pub struct DeferError;

/// The phase a directive or block is in.
#[derive(Clone, Copy, PartialEq, Eq, Structural, Debug)]
pub enum VerifierPhase {
    Alpha,
    Beta,
    Delta,
    Epsilon,
    Omega,
    Finished,
}

/// Whether an expression is read, written or deleted.
#[derive(Clone, Copy, PartialEq, Eq, Structural, Debug)]
pub enum VerifyMode {
    Read,
    Write,
    Delete,
}

/// The context an expression is verified in.
#[derive(Debug)]
pub struct VerifierExpressionContext {
    pub context_type: Option<Ty>,
    pub followed_by_type_arguments: bool,
    pub followed_by_call: bool,
    pub mode: VerifyMode,
    pub preceded_by_negative: bool,
}

impl VerifierExpressionContext {
    /// The context of a plain read where a value of `t` is expected.
    pub open spec fn spec_with_type(t: Option<Ty>) -> VerifierExpressionContext {
        VerifierExpressionContext { context_type: t, ..VerifierExpressionContext::spec_default() }
    }

    pub fn with_type(t: Option<Ty>) -> (r: VerifierExpressionContext)
        ensures
            r == VerifierExpressionContext::spec_with_type(t),
    {
        VerifierExpressionContext {
            context_type: t,
            followed_by_type_arguments: false,
            followed_by_call: false,
            mode: VerifyMode::Read,
            preceded_by_negative: false,
        }
    }

    pub open spec fn spec_default() -> VerifierExpressionContext {
        VerifierExpressionContext {
            context_type: None,
            followed_by_type_arguments: false,
            followed_by_call: false,
            mode: VerifyMode::Read,
            preceded_by_negative: false,
        }
    }
}

impl Default for VerifierExpressionContext {
    fn default() -> (r: Self)
        ensures
            r == VerifierExpressionContext::spec_default(),
    {
        VerifierExpressionContext {
            context_type: None,
            followed_by_type_arguments: false,
            followed_by_call: false,
            mode: VerifyMode::Read,
            preceded_by_negative: false,
        }
    }
}

/// The context of a plain read.
pub fn default_context() -> (r: VerifierExpressionContext)
    ensures
        r == VerifierExpressionContext::spec_default(),
{
    VerifierExpressionContext::default()
}

/// A successful verification result.
pub open spec fn ok(v: Option<Entity>) -> Result<Option<Entity>, DeferError> {
    Ok(v)
}

/// Whether `new` keeps every entry of `old`.
pub open spec fn map_extends<K, V>(old: Map<K, V>, new: Map<K, V>) -> bool {
    forall|k: K| #[trigger] old.dom().contains(k) ==> new.dom().contains(k) && new[k] == old[k]
}

/// Whether some error (not a warning) of `diags` starts at `offset`.
pub open spec fn error_at(diags: Seq<Diagnostic>, offset: usize) -> bool {
    exists|i: int| 0 <= i < diags.len() && !(#[trigger] diags[i]).is_warning && diags[i].location.first_offset == offset
}

/// Whether some warning of `diags` starts at `offset`.
pub open spec fn warning_at(diags: Seq<Diagnostic>, offset: usize) -> bool {
    exists|i: int| 0 <= i < diags.len() && (#[trigger] diags[i]).is_warning && diags[i].location.first_offset == offset
}

/// The verifier's working state.
pub struct Subverifier {
    pub host: Database,
    /// Temporary cache of variable binding initializers, by pattern node.
    pub cached_var_init: HashMap<u64, Entity>,
    pub phase_of_drtv: HashMap<u64, VerifierPhase>,
    pub phase_of_block: HashMap<u64, VerifierPhase>,
    /// Partially resolved lambdas, by `FunctionCommon` node.
    pub deferred_function_exp: HashMap<u64, VerifierFunctionPartials>,
    /// Partially resolved function definitions, by `FunctionCommon` node.
    pub function_definition_partials: HashMap<u64, VerifierFunctionPartials>,
    pub definition_conflicts: Vec<(Property, Property)>,
    /// The scopes created for directives and blocks, by node.
    pub node_scopes: HashMap<u64, usize>,
    pub invalidated: bool,
    pub scope: Option<usize>,
    pub external: bool,
    /// Every diagnostic the verifier has reported, in order, including
    /// those that the database dropped because one of the same sort
    /// already starts at that offset.
    pub reports: Ghost<Seq<Diagnostic>>,
    /// The directives that have been verified to the end, by node.
    pub finished: Ghost<Set<u64>>,
}

/// Every directive in phase `Finished` is recorded as finished.
pub open spec fn finished_ok(v: Subverifier) -> bool {
    forall|id: u64| #[trigger] v.phase_of_drtv@.contains_key(id) && v.phase_of_drtv@[id] == VerifierPhase::Finished
        ==> v.finished@.contains(id)
}


/// The activation scope nearest to `scope` in its chain, walking at most `fuel` scopes.
pub open spec fn spec_search_activation(scopes: Seq<Scope>, scope: Option<usize>, fuel: nat) -> Option<usize>
    decreases fuel,
{
    if fuel == 0 {
        None
    } else {
        match scope {
            None => None,
            Some(s) => if s >= scopes.len() {
                None
            } else if scopes[s as int].kind is Activation {
                Some(s)
            } else {
                spec_search_activation(scopes, scopes[s as int].parent, (fuel - 1) as nat)
            },
        }
    }
}

/// Whether a class scope is in the chain of `scope`, walking at most `fuel` scopes.
pub open spec fn spec_class_in_chain(scopes: Seq<Scope>, scope: Option<usize>, fuel: nat) -> bool
    decreases fuel,
{
    if fuel == 0 {
        false
    } else {
        match scope {
            None => false,
            Some(s) => if s >= scopes.len() {
                false
            } else if scopes[s as int].kind is Class {
                true
            } else {
                spec_class_in_chain(scopes, scopes[s as int].parent, (fuel - 1) as nat)
            },
        }
    }
}

/// The `this` type of the activation nearest to `scope`.
pub open spec fn spec_this_type(scopes: Seq<Scope>, scope: Option<usize>) -> Option<Ty> {
    match spec_search_activation(scopes, scope, scopes.len()) {
        Some(a) => match scopes[a as int].kind {
            ScopeKind::Activation { this_type } => this_type,
            _ => None,
        },
        None => None,
    }
}

/// Whether the scope chain of `scope` provides the system namespace `kind`:
/// `public` and `internal` always, `private` and `protected` inside a class.
pub open spec fn spec_system_ns_available(scopes: Seq<Scope>, scope: Option<usize>, kind: SystemNamespaceKind) -> bool {
    match kind {
        SystemNamespaceKind::Public | SystemNamespaceKind::Internal => true,
        _ => spec_class_in_chain(scopes, scope, scopes.len()),
    }
}

/// The activation found in a scope chain is a scope of the table.
pub proof fn lemma_search_activation_bound(scopes: Seq<Scope>, scope: Option<usize>, fuel: nat)
    ensures
        spec_search_activation(scopes, scope, fuel) matches Some(a) ==> a < scopes.len()
            && scopes[a as int].kind is Activation,
    decreases fuel,
{
    if fuel > 0 {
        if let Some(s) = scope {
            if s < scopes.len() && !(scopes[s as int].kind is Activation) {
                lemma_search_activation_bound(scopes, scopes[s as int].parent, (fuel - 1) as nat);
            }
        }
    }
}

/// The phase that a phase table `m` gives the node `id`: its recorded
/// phase, or `initial` the first time.
pub open spec fn spec_lazy_phase(m: Map<u64, VerifierPhase>, id: u64, initial: VerifierPhase) -> VerifierPhase {
    if m.contains_key(id) { m[id] } else { initial }
}

/// A phase once set is the phase that is found again, whatever initial
/// phase the lookup offers.
pub proof fn lemma_phase_set_then_found(m: Map<u64, VerifierPhase>, id: u64, phase: VerifierPhase, initial: VerifierPhase)
    ensures
        spec_lazy_phase(m.insert(id, phase), id, initial) == phase,
{
}

/// `new` is `old` after entering the scope `s`: `s` is the current scope,
/// and `s`, if it had no parent, has the scope that was current as parent.
pub open spec fn spec_entered(old: Subverifier, new: Subverifier, s: usize) -> bool {
    &&& new.scope == Some(s)
    &&& new.host.scopes@.len() == old.host.scopes@.len()
    &&& s < old.host.scopes@.len() ==> new.host.scopes@[s as int].parent == (if old.host.scopes@[s as int].parent is None {
        old.scope } else { old.host.scopes@[s as int].parent })
}

/// `new` is `old` after leaving the current scope for its parent.
pub open spec fn spec_exited(old: Subverifier, new: Subverifier) -> bool {
    &&& new.host == old.host
    &&& new.scope == match old.scope {
        Some(s) => if s < old.host.scopes@.len() { old.host.scopes@[s as int].parent } else { None },
        None => None,
    }
}

/// Entering a scope that has no parent and leaving it again comes back to
/// the scope that was current.
pub proof fn lemma_enter_then_exit(a: Subverifier, b: Subverifier, c: Subverifier, s: usize)
    requires
        s < a.host.scopes@.len(),
        a.host.scopes@[s as int].parent is None,
        spec_entered(a, b, s),
        spec_exited(b, c),
    ensures
        c.scope == a.scope,
{
}

/// Whether `new`, which extends `old`, holds an error that `old` does not.
pub open spec fn errors_since(old: Seq<Diagnostic>, new: Seq<Diagnostic>) -> bool {
    exists|i: int| old.len() <= i < new.len() && !(#[trigger] new[i]).is_warning
}

/// Whether the verifier reported, between `old` and `new`, an error of
/// `kind` at `location` (which the database keeps unless an error already
/// starts at that offset).
pub open spec fn reported(old: Subverifier, new: Subverifier, location: Location, kind: DiagnosticKind) -> bool {
    exists|i: int| old.reports@.len() <= i < new.reports@.len()
        && #[trigger] new.reports@[i] == (Diagnostic { location, kind, is_warning: false, is_syntax_error: false })
}

/// Whether the verifier reported, between `old` and `new`, a warning of
/// `kind` at `location`.
pub open spec fn warned(old: Subverifier, new: Subverifier, location: Location, kind: DiagnosticKind) -> bool {
    exists|i: int| old.reports@.len() <= i < new.reports@.len()
        && #[trigger] new.reports@[i] == (Diagnostic { location, kind, is_warning: true, is_syntax_error: false })
}

/// Whether the operands of `exp` have been verified already, so that
/// verifying `exp` itself does not defer; the base of a member expression
/// must moreover not be a value of an unresolved type.
pub open spec fn operands_settled(v: Subverifier, exp: Expression) -> bool {
    match exp.kind {
        ExpressionKind::QualifiedIdentifier(id) => qid_operands_verified(v, id),
        ExpressionKind::Member { base, identifier } => v.is_verified(base.id) && qid_operands_verified(v, identifier)
            && !spec_result_defers(v.value_of(base.id)),
        ExpressionKind::ComputedMember { base, key } => v.is_verified(base.id) && v.is_verified(key.id)
            && !spec_result_defers(v.value_of(base.id)),
        ExpressionKind::Paren { expression } => v.is_verified(expression.id),
        ExpressionKind::Xml { element } => xml_elem_verified(v, element),
        ExpressionKind::XmlList { content } => xml_contents_verified(v, content@),
        ExpressionKind::ArrayLiteral { elements } => elements_verified(v, elements@),
        ExpressionKind::VectorLiteral { element_type, elements } => v.is_verified(element_type.id) && elements_verified(v, elements@),
        ExpressionKind::ObjectInitializer { fields } => fields_operands_verified(v, fields@),
        ExpressionKind::New { base, arguments } => v.is_verified(base.id) && (arguments matches Some(args)
            ==> forall|i: int| 0 <= i < args@.len() ==> v.is_verified((#[trigger] args@[i]).id)),
        ExpressionKind::Descendants { base, identifier } => v.is_verified(base.id) && qid_operands_verified(v, identifier),
        ExpressionKind::Filter { base, test } => v.is_verified(base.id) && v.is_verified(test.id),
        ExpressionKind::Super { object } => object matches Some(objs)
            ==> forall|i: int| 0 <= i < objs@.len() ==> v.is_verified((#[trigger] objs@[i]).id),
        ExpressionKind::Call { base, arguments } => v.is_verified(base.id)
            && forall|i: int| 0 <= i < arguments@.len() ==> v.is_verified((#[trigger] arguments@[i]).id),
        ExpressionKind::WithTypeArguments { base, arguments } => v.is_verified(base.id)
            && forall|i: int| 0 <= i < arguments@.len() ==> v.is_verified((#[trigger] arguments@[i]).id),
        ExpressionKind::Unary { expression, .. } => v.is_verified(expression.id),
        ExpressionKind::OptionalChaining { base, expression, .. } => v.is_verified(base.id) && v.is_verified(expression.id),
        ExpressionKind::Binary { left, right, .. } => v.is_verified(left.id) && v.is_verified(right.id),
        ExpressionKind::Conditional { test, consequent, alternative } => v.is_verified(test.id)
            && v.is_verified(consequent.id) && v.is_verified(alternative.id),
        ExpressionKind::Sequence { left, right } => v.is_verified(left.id) && v.is_verified(right.id),
        ExpressionKind::NullableType { base } => v.is_verified(base.id),
        ExpressionKind::NonNullableType { base } => v.is_verified(base.id),
        ExpressionKind::ArrayType { expression } => v.is_verified(expression.id),
        ExpressionKind::TupleType { expressions } =>
            forall|i: int| 0 <= i < expressions@.len() ==> v.is_verified((#[trigger] expressions@[i]).id),
        ExpressionKind::FunctionType { parameters, result_type } =>
            (forall|j: int| 0 <= j < parameters@.len() ==> ftp_settled(v, #[trigger] parameters@[j]))
            && (result_type matches Some(e) ==> v.is_verified(e.id)),
        ExpressionKind::Assignment { compound, left, right } => v.is_verified(right.id) && (
            if spec_destructuring_lhs(*left) && compound is None { pattern_settled(v, *left) } else { v.is_verified(left.id) }),
        ExpressionKind::Function { common, .. } =>
            (match common.signature.this_parameter { Some(tp) => v.is_verified(tp.id), None => true })
            && params_operands_verified(v, common.signature.parameters@)
            && (match common.signature.result_type { Some(rt) => v.is_verified(rt.id), None => true }),
        _ => true,
    }
}

/// Verifying `exp` from `v` does not defer: it has been verified already,
/// or its operands have.
pub open spec fn exp_settles(v: Subverifier, exp: Expression) -> bool {
    v.is_verified(exp.id) || operands_settled(v, exp)
}

/// An expression whose verification does not defer stays so.
pub proof fn lemma_exp_settles_stable(a: Subverifier, b: Subverifier, exp: Expression)
    requires
        exp_settles(a, exp),
        b.progress(a),
    ensures
        exp_settles(b, exp),
{
    if operands_settled(a, exp) {
        lemma_operands_settled_stable(a, b, exp);
    }
}

/// Operands once settled stay settled as verification goes on.
pub proof fn lemma_operands_settled_stable(a: Subverifier, b: Subverifier, exp: Expression)
    requires
        operands_settled(a, exp),
        b.progress(a),
    ensures
        operands_settled(b, exp),
{
    crate::exp::lemma_results_stable(a, b);
    match exp.kind {
        ExpressionKind::QualifiedIdentifier(id) => {
            if let Some(q) = id.qualifier { assert(a.is_verified(q.id)); }
            if let crate::ast::QualifiedIdentifierIdentifier::Brackets(e) = id.id { assert(a.is_verified(e.id)); }
        },
        ExpressionKind::Member { base, identifier } => {
            assert(a.is_verified(base.id));
            if let Some(q) = identifier.qualifier { assert(a.is_verified(q.id)); }
            if let crate::ast::QualifiedIdentifierIdentifier::Brackets(e) = identifier.id { assert(a.is_verified(e.id)); }
        },
        ExpressionKind::Descendants { base, identifier } => {
            assert(a.is_verified(base.id));
            if let Some(q) = identifier.qualifier { assert(a.is_verified(q.id)); }
            if let crate::ast::QualifiedIdentifierIdentifier::Brackets(e) = identifier.id { assert(a.is_verified(e.id)); }
        },
        ExpressionKind::ComputedMember { base, key } => { assert(a.is_verified(base.id)); },
        ExpressionKind::Xml { element } => { crate::exp_access::lemma_xml_elem_verified_stable(a, b, element); },
        ExpressionKind::XmlList { content } => {
            assert forall|k: int| 0 <= k < content@.len() implies crate::exp_access::xml_content_verified(b, #[trigger] content@[k]) by {
                crate::exp_access::lemma_xml_content_verified_stable(a, b, content@[k]);
            }
        },
        ExpressionKind::ArrayLiteral { elements } => { crate::array::lemma_elements_verified_stable(a, b, elements@); },
        ExpressionKind::VectorLiteral { element_type, elements } => {
            crate::array::lemma_elements_verified_stable(a, b, elements@);
        },
        ExpressionKind::ObjectInitializer { fields } => { crate::object_literal::lemma_fields_operands_stable(a, b, fields@); },
        ExpressionKind::New { base, arguments } => {
            if let Some(args) = arguments {
                assert forall|i: int| 0 <= i < args@.len() implies b.is_verified((#[trigger] args@[i]).id) by {
                    assert(a.is_verified(args@[i].id));
                }
            }
        },
        ExpressionKind::Super { object } => {
            if let Some(objs) = object {
                assert forall|i: int| 0 <= i < objs@.len() implies b.is_verified((#[trigger] objs@[i]).id) by {
                    assert(a.is_verified(objs@[i].id));
                }
            }
        },
        ExpressionKind::Call { base, arguments } => {
            assert forall|i: int| 0 <= i < arguments@.len() implies b.is_verified((#[trigger] arguments@[i]).id) by {
                assert(a.is_verified(arguments@[i].id));
            }
        },
        ExpressionKind::WithTypeArguments { base, arguments } => {
            assert forall|i: int| 0 <= i < arguments@.len() implies b.is_verified((#[trigger] arguments@[i]).id) by {
                assert(a.is_verified(arguments@[i].id));
            }
        },
        ExpressionKind::TupleType { expressions } => {
            assert forall|i: int| 0 <= i < expressions@.len() implies b.is_verified((#[trigger] expressions@[i]).id) by {
                assert(a.is_verified(expressions@[i].id));
            }
        },
        ExpressionKind::FunctionType { parameters, result_type } => {
            assert forall|j: int| 0 <= j < parameters@.len() implies ftp_settled(b, #[trigger] parameters@[j]) by {
                assert(ftp_settled(a, parameters@[j]));
                if let Some(e) = parameters@[j].type_expression { assert(a.is_verified(e.id)); }
            }
        },
        ExpressionKind::Assignment { compound, left, right } => {
            assert(a.is_verified(right.id));
            if spec_destructuring_lhs(*left) && compound is None {
                match left.kind {
                    ExpressionKind::QualifiedIdentifier(id) => { if !id.attribute { assert(a.is_verified(left.id)); } },
                    ExpressionKind::ArrayLiteral { .. } | ExpressionKind::ObjectInitializer { .. } => { assert(a.is_verified(left.id)); },
                    ExpressionKind::Unary { operator, .. } => { if operator == crate::ast::Operator::NonNull { assert(a.is_verified(left.id)); } },
                    _ => {},
                }
            } else {
                assert(a.is_verified(left.id));
            }
        },
        ExpressionKind::Function { common, .. } => {
            if let Some(tp) = common.signature.this_parameter { assert(a.is_verified(tp.id)); }
            if let Some(rt) = common.signature.result_type { assert(a.is_verified(rt.id)); }
            crate::function_common::lemma_params_operands_stable(a, b, common.signature.parameters@);
        },
        _ => {},
    }
}

/// Whether the verifier has reported an error of `kind` at `location`.
pub open spec fn ever_reported(v: Subverifier, location: Location, kind: DiagnosticKind) -> bool {
    exists|i: int| 0 <= i < v.reports@.len()
        && #[trigger] v.reports@[i] == (Diagnostic { location, kind, is_warning: false, is_syntax_error: false })
}

/// Whether the verifier has reported a warning of `kind` at `location`.
pub open spec fn ever_warned(v: Subverifier, location: Location, kind: DiagnosticKind) -> bool {
    exists|i: int| 0 <= i < v.reports@.len()
        && #[trigger] v.reports@[i] == (Diagnostic { location, kind, is_warning: true, is_syntax_error: false })
}

/// What was reported stays reported.
pub proof fn lemma_ever_reported_kept(a: Subverifier, b: Subverifier, location: Location, kind: DiagnosticKind)
    requires
        b.progress(a),
    ensures
        ever_reported(a, location, kind) ==> ever_reported(b, location, kind),
        ever_warned(a, location, kind) ==> ever_warned(b, location, kind),
        reported(a, b, location, kind) ==> ever_reported(b, location, kind),
        warned(a, b, location, kind) ==> ever_warned(b, location, kind),
{
    if ever_reported(a, location, kind) {
        let i = choose|i: int| 0 <= i < a.reports@.len()
            && #[trigger] a.reports@[i] == (Diagnostic { location, kind, is_warning: false, is_syntax_error: false });
        assert(b.reports@[i] == a.reports@[i]);
    }
    if ever_warned(a, location, kind) {
        let i = choose|i: int| 0 <= i < a.reports@.len()
            && #[trigger] a.reports@[i] == (Diagnostic { location, kind, is_warning: true, is_syntax_error: false });
        assert(b.reports@[i] == a.reports@[i]);
    }
}

/// An error reported between two states stays reported between wider ones.
pub proof fn lemma_reported_widen(a: Subverifier, b: Subverifier, c: Subverifier, d: Subverifier, location: Location, kind: DiagnosticKind)
    requires
        reported(b, c, location, kind),
        b.progress(a),
        d.progress(c),
    ensures
        reported(a, d, location, kind),
{
    let i = choose|i: int| b.reports@.len() <= i < c.reports@.len()
        && #[trigger] c.reports@[i] == (Diagnostic { location, kind, is_warning: false, is_syntax_error: false });
    assert(d.reports@[i] == c.reports@[i]);
}

/// A warning reported between two states stays reported between wider ones.
pub proof fn lemma_warned_widen(a: Subverifier, b: Subverifier, c: Subverifier, d: Subverifier, location: Location, kind: DiagnosticKind)
    requires
        warned(b, c, location, kind),
        b.progress(a),
        d.progress(c),
    ensures
        warned(a, d, location, kind),
{
    let i = choose|i: int| b.reports@.len() <= i < c.reports@.len()
        && #[trigger] c.reports@[i] == (Diagnostic { location, kind, is_warning: true, is_syntax_error: false });
    assert(d.reports@[i] == c.reports@[i]);
}

/// Reporting an error is reporting it.
pub proof fn lemma_reported_by_add(old: Subverifier, new: Subverifier, location: Location, kind: DiagnosticKind)
    requires
        new.spec_error_added(old, location, kind, false),
    ensures
        reported(old, new, location, kind),
{
    assert(new.reports@[old.reports@.len() as int] == (Diagnostic { location, kind, is_warning: false, is_syntax_error: false }));
}

/// No two errors of `diags` start at the same offset.
pub open spec fn errors_unique(diags: Seq<Diagnostic>) -> bool {
    forall|i: int, j: int| 0 <= i < j < diags.len() && !(#[trigger] diags[i]).is_warning && !(#[trigger] diags[j]).is_warning
        ==> diags[i].location.first_offset != diags[j].location.first_offset
}

/// Adding an error to a list of diagnostics, unless one already starts at
/// its offset, keeps errors at distinct offsets.
proof fn lemma_error_added_keeps_errors_unique_seq(d: Seq<Diagnostic>, n: Seq<Diagnostic>, location: Location)
    requires
        error_at(d, location.first_offset) ==> n == d,
        !error_at(d, location.first_offset) ==> n.len() == d.len() + 1 && n.subrange(0, d.len() as int) == d
            && !n[d.len() as int].is_warning && n[d.len() as int].location == location,
    ensures
        errors_unique(d) ==> errors_unique(n),
{
    if errors_unique(d) && !error_at(d, location.first_offset) {
        assert forall|i: int, j: int| 0 <= i < j < n.len() && !(#[trigger] n[i]).is_warning && !(#[trigger] n[j]).is_warning
            implies n[i].location.first_offset != n[j].location.first_offset by {
            assert(n[i] == n.subrange(0, d.len() as int)[i]);
            if j == d.len() {
                if n[i].location.first_offset == location.first_offset {
                    assert(error_at(d, location.first_offset));
                }
            } else {
                assert(n[j] == n.subrange(0, d.len() as int)[j]);
            }
        }
    }
}

/// An error reported in the course of verification invalidates the
/// verifier, and errors stay at distinct offsets: verification never
/// reports two errors at one offset.
pub proof fn lemma_errors_invalidate(a: Subverifier, b: Subverifier)
    requires
        b.progress(a),
    ensures
        errors_since(a.host.diagnostics@, b.host.diagnostics@) ==> b.invalidated,
        errors_unique(a.host.diagnostics@) ==> errors_unique(b.host.diagnostics@),
        a.invalidated ==> b.invalidated,
{
}

/// An error stays reported when diagnostics are only appended.
pub proof fn lemma_error_at_preserved(old: Seq<Diagnostic>, new: Seq<Diagnostic>, offset: usize)
    requires
        old.len() <= new.len(),
        forall|i: int| 0 <= i < old.len() ==> #[trigger] new[i] == old[i],
        error_at(old, offset),
    ensures
        error_at(new, offset),
{
    let i = choose|i: int| 0 <= i < old.len() && !(#[trigger] old[i]).is_warning && old[i].location.first_offset == offset;
    assert(new[i] == old[i]);
}

/// A warning stays reported when diagnostics are only appended.
pub proof fn lemma_warning_at_preserved(old: Seq<Diagnostic>, new: Seq<Diagnostic>, offset: usize)
    requires
        old.len() <= new.len(),
        forall|i: int| 0 <= i < old.len() ==> #[trigger] new[i] == old[i],
        warning_at(old, offset),
    ensures
        warning_at(new, offset),
{
    let i = choose|i: int| 0 <= i < old.len() && (#[trigger] old[i]).is_warning && old[i].location.first_offset == offset;
    assert(new[i] == old[i]);
}

/// An error reported before a verification step stays reported after it.
pub proof fn lemma_keeps_error(a: Subverifier, b: Subverifier, location: Location)
    requires
        b.progress(a),
        a.spec_has_error_at(location),
    ensures
        b.spec_has_error_at(location),
{
    lemma_error_at_preserved(a.host.diagnostics@, b.host.diagnostics@, location.first_offset);
}

/// The property that a reference captures from an enclosing activation:
/// a property of a scope whose activation differs from the activation of
/// the current scope.
pub open spec fn spec_capture_target(v: Subverifier, reference: Entity) -> Option<(int, int)> {
    match reference {
        Entity::PropertyReference { base: ReferenceBase::Scope { scope, index }, .. } => {
            let scopes = v.host.scopes@;
            match (spec_search_activation(scopes, Some(scope), scopes.len()), spec_search_activation(scopes, v.scope, scopes.len())) {
                (Some(a), Some(b)) => if a != b && scope < scopes.len() && index < scopes[scope as int].properties@.len() {
                    Some((scope as int, index as int))
                } else {
                    None
                },
                _ => None,
            }
        },
        _ => None,
    }
}

/// Every property of a scope of `old` is still there, under the same name
/// and at the same index, in `new`: properties are only added or changed.
pub open spec fn names_kept(old: Seq<Scope>, new: Seq<Scope>) -> bool {
    forall|i: int, j: int| #![trigger old[i].properties@[j]]
        0 <= i < old.len() && 0 <= j < old[i].properties@.len()
        ==> j < new[i].properties@.len() && new[i].properties@[j].name == old[i].properties@[j].name
}

impl Subverifier {
    pub open spec fn spec_has_error_at(self, location: Location) -> bool {
        error_at(self.host.diagnostics@, location.first_offset)
    }

    /// The verifier state `self` was reached from `old` by verification
    /// steps: node mappings are never changed once set, diagnostics are only
    /// appended, an invalidated verifier stays invalidated, scopes are only
    /// added, a scope keeps its kind, its parent once it has one, and the
    /// names of its properties.
    pub open spec fn progress(self, old: Subverifier) -> bool {
        &&& map_extends(old.host.node_mapping@, self.host.node_mapping@)
        &&& forall|k: u64| #[trigger] old.host.node_mapping@.contains_key(k) ==>
            (self.host.node_invalidation_mapping@.contains_key(k) == old.host.node_invalidation_mapping@.contains_key(k))
        &&& old.host.diagnostics@.len() <= self.host.diagnostics@.len()
        &&& forall|i: int| 0 <= i < old.host.diagnostics@.len() ==> #[trigger] self.host.diagnostics@[i] == old.host.diagnostics@[i]
        &&& old.invalidated ==> self.invalidated
        &&& old.host.scopes@.len() <= self.host.scopes@.len()
        &&& forall|i: int| 0 <= i < old.host.scopes@.len() ==> {
            &&& (#[trigger] self.host.scopes@[i]).kind == old.host.scopes@[i].kind
            &&& old.host.scopes@[i].parent is Some ==> self.host.scopes@[i].parent == old.host.scopes@[i].parent
        }
        &&& names_kept(old.host.scopes@, self.host.scopes@)
        &&& old.host.types@.len() <= self.host.types@.len()
        &&& forall|i: int| 0 <= i < old.host.types@.len() ==> #[trigger] self.host.types@[i] == old.host.types@[i]
        &&& old.reports@.len() <= self.reports@.len()
        &&& forall|i: int| 0 <= i < old.reports@.len() ==> #[trigger] self.reports@[i] == old.reports@[i]
        &&& errors_since(old.host.diagnostics@, self.host.diagnostics@) ==> self.invalidated
        &&& errors_unique(old.host.diagnostics@) ==> errors_unique(self.host.diagnostics@)
        &&& old.finished@.subset_of(self.finished@)
        &&& finished_ok(old) ==> finished_ok(self)
    }

    /// A verification step: `progress` that leaves the current scope as it was.
    pub open spec fn step(self, old: Subverifier) -> bool {
        &&& self.progress(old)
        &&& self.scope == old.scope
    }

    /// What the node `id` was verified to: `None` when verification failed,
    /// including a failed implicit coercion.
    pub open spec fn result_of(self, id: u64) -> Option<Entity> {
        if self.host.node_invalidation_mapping@.contains_key(id) {
            None
        } else {
            self.host.node_mapping@[id]
        }
    }

    /// A verifier of the database `host`, in no scope, that has reported nothing.
    pub fn new(host: Database) -> (r: Subverifier)
        ensures
            r.host == host,
            !r.invalidated,
            r.scope is None,
            !r.external,
            r.reports@ == Seq::<Diagnostic>::empty(),
            r.cached_var_init@ == Map::<u64, Entity>::empty(),
            r.phase_of_drtv@ == Map::<u64, VerifierPhase>::empty(),
            r.phase_of_block@ == Map::<u64, VerifierPhase>::empty(),
            r.deferred_function_exp@ == Map::<u64, VerifierFunctionPartials>::empty(),
            r.function_definition_partials@ == Map::<u64, VerifierFunctionPartials>::empty(),
            r.definition_conflicts@.len() == 0,
            finished_ok(r),
    {
        Subverifier {
            host,
            cached_var_init: HashMap::new(),
            phase_of_drtv: HashMap::new(),
            phase_of_block: HashMap::new(),
            deferred_function_exp: HashMap::new(),
            function_definition_partials: HashMap::new(),
            definition_conflicts: Vec::new(),
            node_scopes: HashMap::new(),
            invalidated: false,
            scope: None,
            external: false,
            reports: Ghost(Seq::empty()),
            finished: Ghost(Set::empty()),
        }
    }

    /// What the node `id` is mapped to, even where a later implicit
    /// coercion of it failed: what verifying the expression gives again.
    pub open spec fn value_of(self, id: u64) -> Option<Entity> {
        self.host.node_mapping@[id]
    }

    /// The node `id` is mapped to exactly `v`.
    pub open spec fn has_value(self, id: u64, v: Option<Entity>) -> bool {
        &&& self.host.node_mapping@.contains_key(id)
        &&& self.host.node_mapping@[id] == v
    }

    /// The node `id` has been verified, to a result or to nothing.
    pub open spec fn is_verified(self, id: u64) -> bool {
        self.host.node_mapping@.contains_key(id)
    }

    /// The node `id` has been verified to `v`.
    pub open spec fn has_result(self, id: u64, v: Option<Entity>) -> bool {
        &&& self.host.node_mapping@.contains_key(id)
        &&& self.result_of(id) == v
    }

    /// Indicates whether an error was found in the program while verifying.
    pub fn invalidated(&self) -> (r: bool)
        ensures
            r == self.invalidated,
    {
        self.invalidated
    }

    /// What the verifier has mapped nodes to.
    pub fn node_mapping(&self) -> (r: &HashMap<u64, Option<Entity>>)
        ensures
            r == &self.host.node_mapping,
    {
        &self.host.node_mapping
    }

    /// Clears the caches that only live during one verification.
    pub fn reset_state(&mut self)
        ensures
            final(self).cached_var_init@ == Map::<u64, Entity>::empty(),
            final(self).phase_of_drtv@ == Map::<u64, VerifierPhase>::empty(),
            final(self).phase_of_block@ == Map::<u64, VerifierPhase>::empty(),
            final(self).deferred_function_exp@ == Map::<u64, VerifierFunctionPartials>::empty(),
            final(self).function_definition_partials@ == Map::<u64, VerifierFunctionPartials>::empty(),
            final(self).host == old(self).host,
            final(self).invalidated == old(self).invalidated,
            final(self).scope == old(self).scope,
            final(self).external == old(self).external,
            final(self).definition_conflicts == old(self).definition_conflicts,
            final(self).reports == old(self).reports,
            final(self).node_scopes == old(self).node_scopes,
            final(self).finished == old(self).finished,
    {
        self.cached_var_init.clear();
        self.phase_of_drtv.clear();
        self.phase_of_block.clear();
        self.deferred_function_exp.clear();
        self.function_definition_partials.clear();
    }

    /// The phase of a directive, which starts at `initial_phase` the first time.
    pub fn lazy_init_drtv_phase(&mut self, drtv: &Directive, initial_phase: VerifierPhase) -> (r: VerifierPhase)
        ensures
            r == spec_lazy_phase(old(self).phase_of_drtv@, drtv.id, initial_phase),
            old(self).phase_of_drtv@.contains_key(drtv.id) ==> r == old(self).phase_of_drtv@[drtv.id]
                && final(self).phase_of_drtv@ == old(self).phase_of_drtv@,
            !old(self).phase_of_drtv@.contains_key(drtv.id) ==> r == initial_phase
                && final(self).phase_of_drtv@ == old(self).phase_of_drtv@.insert(drtv.id, initial_phase),
            old(self).phase_of_drtv@.contains_key(drtv.id) ==> *final(self) == *old(self),
            *final(self) == (Subverifier { phase_of_drtv: final(self).phase_of_drtv, ..*old(self) }),
    {
        match self.phase_of_drtv.get(&drtv.id) {
            Some(k) => *k,
            None => {
                self.phase_of_drtv.insert(drtv.id, initial_phase);
                initial_phase
            },
        }
    }

    /// The phase of a block, which starts at `initial_phase` the first time.
    pub fn lazy_init_block_phase(&mut self, block: &Block, initial_phase: VerifierPhase) -> (r: VerifierPhase)
        ensures
            r == spec_lazy_phase(old(self).phase_of_block@, block.id, initial_phase),
            old(self).phase_of_block@.contains_key(block.id) ==> r == old(self).phase_of_block@[block.id]
                && final(self).phase_of_block@ == old(self).phase_of_block@,
            !old(self).phase_of_block@.contains_key(block.id) ==> r == initial_phase
                && final(self).phase_of_block@ == old(self).phase_of_block@.insert(block.id, initial_phase),
            old(self).phase_of_block@.contains_key(block.id) ==> *final(self) == *old(self),
            *final(self) == (Subverifier { phase_of_block: final(self).phase_of_block, ..*old(self) }),
    {
        match self.phase_of_block.get(&block.id) {
            Some(k) => *k,
            None => {
                self.phase_of_block.insert(block.id, initial_phase);
                initial_phase
            },
        }
    }

    /// Sets the phase of a directive; a directive set to `Finished` is
    /// recorded as finished.
    pub fn set_drtv_phase(&mut self, drtv: &Directive, phase: VerifierPhase)
        ensures
            final(self).phase_of_drtv@ == old(self).phase_of_drtv@.insert(drtv.id, phase),
            final(self).finished@ == (if phase == VerifierPhase::Finished { old(self).finished@.insert(drtv.id) } else { old(self).finished@ }),
            *final(self) == (Subverifier { phase_of_drtv: final(self).phase_of_drtv, finished: final(self).finished, ..*old(self) }),
            finished_ok(*old(self)) ==> finished_ok(*final(self)),
    {
        self.phase_of_drtv.insert(drtv.id, phase);
        if phase == VerifierPhase::Finished {
            self.finished = Ghost(self.finished@.insert(drtv.id));
        }
    }

    pub fn set_block_phase(&mut self, block: &Block, phase: VerifierPhase)
        ensures
            final(self).phase_of_block@ == old(self).phase_of_block@.insert(block.id, phase),
            *final(self) == (Subverifier { phase_of_block: final(self).phase_of_block, ..*old(self) }),
    {
        self.phase_of_block.insert(block.id, phase);
    }

    /// Whether an error already starts at the offset where `location` starts.
    fn prevent_equal_offset_error(&self, location: &Location) -> (r: bool)
        ensures
            r == error_at(self.host.diagnostics@, location.first_offset),
    {
        let mut i: usize = 0;
        while i < self.host.diagnostics.len()
            invariant
                i <= self.host.diagnostics@.len(),
                forall|j: int| 0 <= j < i ==> !(#[trigger] self.host.diagnostics@[j].is_warning == false
                    && self.host.diagnostics@[j].location.first_offset == location.first_offset),
            decreases self.host.diagnostics@.len() - i,
        {
            let d = &self.host.diagnostics[i];
            if !d.is_warning && d.location.first_offset == location.first_offset {
                return true;
            }
            i = i + 1;
        }
        proof {
            assert forall|j: int| 0 <= j < self.host.diagnostics@.len() implies !(!(#[trigger] self.host.diagnostics@[j]).is_warning
                && self.host.diagnostics@[j].location.first_offset == location.first_offset) by {
                assert(self.host.diagnostics@[j].is_warning == false ==> self.host.diagnostics@[j].location.first_offset != location.first_offset);
            }
        }
        false
    }

    /// Whether a warning already starts at the offset where `location` starts.
    fn prevent_equal_offset_warning(&self, location: &Location) -> (r: bool)
        ensures
            r == warning_at(self.host.diagnostics@, location.first_offset),
    {
        let mut i: usize = 0;
        while i < self.host.diagnostics.len()
            invariant
                i <= self.host.diagnostics@.len(),
                forall|j: int| 0 <= j < i ==> !((#[trigger] self.host.diagnostics@[j]).is_warning
                    && self.host.diagnostics@[j].location.first_offset == location.first_offset),
            decreases self.host.diagnostics@.len() - i,
        {
            let d = &self.host.diagnostics[i];
            if d.is_warning && d.location.first_offset == location.first_offset {
                return true;
            }
            i = i + 1;
        }
        false
    }

    /// The effect of reporting an error of `kind` at `location`: unless an
    /// error already starts at that offset, the error is appended and the
    /// verifier is invalidated.
    pub open spec fn spec_error_added(self, old: Subverifier, location: Location, kind: DiagnosticKind, syntax: bool) -> bool {
        &&& if error_at(old.host.diagnostics@, location.first_offset) {
            &&& self.host.diagnostics@ == old.host.diagnostics@
            &&& self.invalidated == old.invalidated
        } else {
            &&& self.host.diagnostics@ == old.host.diagnostics@.push(
                Diagnostic { location, kind, is_warning: false, is_syntax_error: syntax })
            &&& self.invalidated
        }
        &&& self.host.types == old.host.types
        &&& self.host.scopes == old.host.scopes
        &&& self.host.packages == old.host.packages
        &&& self.host.node_mapping == old.host.node_mapping
        &&& self.host.node_invalidation_mapping == old.host.node_invalidation_mapping
        &&& self.host.config_constants == old.host.config_constants
        &&& self.host.config_constants_result == old.host.config_constants_result
        &&& self.scope == old.scope
        &&& self.phase_of_drtv == old.phase_of_drtv
        &&& self.phase_of_block == old.phase_of_block
        &&& self.cached_var_init == old.cached_var_init
        &&& self.deferred_function_exp == old.deferred_function_exp
        &&& self.function_definition_partials == old.function_definition_partials
        &&& self.definition_conflicts == old.definition_conflicts
        &&& self.external == old.external
        &&& self.reports@ == old.reports@.push(Diagnostic { location, kind, is_warning: false, is_syntax_error: syntax })
    }

    pub fn add_syntax_error(&mut self, location: &Location, kind: DiagnosticKind)
        ensures
            final(self).spec_error_added(*old(self), *location, kind, true),
            final(self).progress(*old(self)),
            final(self).spec_has_error_at(*location),
    {
        let ghost old_diags = self.host.diagnostics@;
        self.reports = Ghost(self.reports@.push(Diagnostic { location: *location, kind, is_warning: false, is_syntax_error: true }));
        if self.prevent_equal_offset_error(location) {
            proof { lemma_error_added_keeps_errors_unique_seq(old_diags, self.host.diagnostics@, *location); }
            return;
        }
        self.host.diagnostics.push(Diagnostic { location: *location, kind, is_warning: false, is_syntax_error: true });
        proof {
            assert(self.host.diagnostics@.subrange(0, old_diags.len() as int) =~= old_diags);
            lemma_error_added_keeps_errors_unique_seq(old_diags, self.host.diagnostics@, *location);
        }
        self.invalidated = true;
        proof {
            let n = self.host.diagnostics@.len() - 1;
            assert(!self.host.diagnostics@[n].is_warning);
        }
    }

    pub fn add_verify_error(&mut self, location: &Location, kind: DiagnosticKind)
        ensures
            final(self).spec_error_added(*old(self), *location, kind, false),
            final(self).progress(*old(self)),
            final(self).spec_has_error_at(*location),
    {
        let ghost old_diags = self.host.diagnostics@;
        self.reports = Ghost(self.reports@.push(Diagnostic { location: *location, kind, is_warning: false, is_syntax_error: false }));
        if self.prevent_equal_offset_error(location) {
            proof { lemma_error_added_keeps_errors_unique_seq(old_diags, self.host.diagnostics@, *location); }
            return;
        }
        self.host.diagnostics.push(Diagnostic { location: *location, kind, is_warning: false, is_syntax_error: false });
        proof {
            assert(self.host.diagnostics@.subrange(0, old_diags.len() as int) =~= old_diags);
            lemma_error_added_keeps_errors_unique_seq(old_diags, self.host.diagnostics@, *location);
        }
        self.invalidated = true;
        proof {
            let n = self.host.diagnostics@.len() - 1;
            assert(!self.host.diagnostics@[n].is_warning);
        }
    }

    /// Reports a warning, unless a warning already starts at that offset.
    /// A warning does not invalidate the verifier.
    pub fn add_warning(&mut self, location: &Location, kind: DiagnosticKind)
        ensures
            warning_at(old(self).host.diagnostics@, location.first_offset) ==> final(self).host.diagnostics@ == old(self).host.diagnostics@,
            !warning_at(old(self).host.diagnostics@, location.first_offset) ==> final(self).host.diagnostics@
                == old(self).host.diagnostics@.push(Diagnostic { location: *location, kind, is_warning: true, is_syntax_error: false }),
            warning_at(final(self).host.diagnostics@, location.first_offset),
            final(self).invalidated == old(self).invalidated,
            final(self).progress(*old(self)),
            final(self).host.node_mapping == old(self).host.node_mapping,
            final(self).host.node_invalidation_mapping == old(self).host.node_invalidation_mapping,
            final(self).host.types == old(self).host.types,
            final(self).host.scopes == old(self).host.scopes,
            final(self).host.packages == old(self).host.packages,
            final(self).scope == old(self).scope,
            final(self).reports@ == old(self).reports@.push(Diagnostic { location: *location, kind, is_warning: true, is_syntax_error: false }),
            final(self).phase_of_drtv == old(self).phase_of_drtv,
    {
        let ghost old_diags = self.host.diagnostics@;
        self.reports = Ghost(self.reports@.push(Diagnostic { location: *location, kind, is_warning: true, is_syntax_error: false }));
        if self.prevent_equal_offset_warning(location) {
            return;
        }
        self.host.diagnostics.push(Diagnostic { location: *location, kind, is_warning: true, is_syntax_error: false });
        proof {
            let d = self.host.diagnostics@;
            assert forall|i: int, j: int| 0 <= i < j < d.len() && !(#[trigger] d[i]).is_warning && !(#[trigger] d[j]).is_warning
                && errors_unique(old_diags) implies d[i].location.first_offset != d[j].location.first_offset by {
                assert(d[i] == old_diags[i] && d[j] == old_diags[j]);
            }
            assert(!errors_since(old_diags, d));
        }
        proof {
            let n = self.host.diagnostics@.len() - 1;
            assert(self.host.diagnostics@[n].is_warning);
        }
    }

    pub fn set_scope(&mut self, scope: usize)
        ensures
            final(self).scope == Some(scope),
            final(self).host == old(self).host,
            final(self).invalidated == old(self).invalidated,
            final(self).progress(*old(self)),
            final(self).phase_of_drtv == old(self).phase_of_drtv,
    {
        self.scope = Some(scope);
    }

    /// Enters `scope`; a scope without a parent takes the current scope as parent.
    pub fn inherit_and_enter_scope(&mut self, scope: usize)
        ensures
            spec_entered(*old(self), *final(self), scope),
            final(self).scope == Some(scope),
            final(self).host.scopes@.len() == old(self).host.scopes@.len(),
            scope < old(self).host.scopes@.len() && old(self).host.scopes@[scope as int].parent is None ==>
                final(self).host.scopes@ == old(self).host.scopes@.update(scope as int,
                    Scope { parent: old(self).scope, ..old(self).host.scopes@[scope as int] }),
            !(scope < old(self).host.scopes@.len() && old(self).host.scopes@[scope as int].parent is None) ==>
                final(self).host.scopes@ == old(self).host.scopes@,
            final(self).invalidated == old(self).invalidated,
            final(self).host.node_mapping == old(self).host.node_mapping,
            final(self).host.diagnostics == old(self).host.diagnostics,
            final(self).progress(*old(self)),
            final(self).phase_of_drtv == old(self).phase_of_drtv,
    {
        let k = self.scope;
        self.scope = Some(scope);
        if scope < self.host.scopes.len() && self.host.scopes[scope].parent.is_none() {
            self.host.scopes[scope].parent = k;
        }
    }

    /// Leaves the current scope for its parent.
    pub fn exit_scope(&mut self)
        ensures
            spec_exited(*old(self), *final(self)),
            final(self).scope == (match old(self).scope {
                Some(s) => if s < old(self).host.scopes@.len() { old(self).host.scopes@[s as int].parent } else { None },
                None => None,
            }),
            final(self).host == old(self).host,
            final(self).invalidated == old(self).invalidated,
            final(self).progress(*old(self)),
            *final(self) == (Subverifier { scope: final(self).scope, ..*old(self) }),
    {
        self.scope = match self.scope {
            Some(s) => if s < self.host.scopes.len() { self.host.scopes[s].parent } else { None },
            None => None,
        };
    }

    /// The current scope.
    pub fn scope(&self) -> (r: usize)
        requires
            self.scope is Some,
        ensures
            Some(r) == self.scope,
    {
        self.scope.unwrap()
    }

    /// The activation scope nearest to the current scope.
    pub fn search_activation(&self) -> (r: Option<usize>)
        ensures
            r == spec_search_activation(self.host.scopes@, self.scope, self.host.scopes@.len()),
    {
        let mut cur = self.scope;
        let mut fuel: usize = self.host.scopes.len();
        while fuel > 0
            invariant
                fuel <= self.host.scopes@.len(),
                spec_search_activation(self.host.scopes@, self.scope, self.host.scopes@.len())
                    == spec_search_activation(self.host.scopes@, cur, fuel as nat),
            decreases fuel,
        {
            match cur {
                None => return None,
                Some(s) => {
                    if s >= self.host.scopes.len() {
                        return None;
                    }
                    if matches!(self.host.scopes[s].kind, ScopeKind::Activation { .. }) {
                        return Some(s);
                    }
                    cur = self.host.scopes[s].parent;
                },
            }
            fuel = fuel - 1;
        }
        None
    }

    /// The `this` type of the nearest activation.
    pub fn this_type(&self) -> (r: Option<Ty>)
        ensures
            r == spec_this_type(self.host.scopes@, self.scope),
    {
        proof {
            lemma_search_activation_bound(self.host.scopes@, self.scope, self.host.scopes@.len());
        }
        match self.search_activation() {
            Some(a) => match &self.host.scopes[a].kind {
                ScopeKind::Activation { this_type } => match this_type {
                    Some(t) => Some(t.clone()),
                    None => None,
                },
                _ => None,
            },
            None => None,
        }
    }

    /// Whether the scope chain provides the system namespace `kind`.
    pub fn system_ns_available(&self, kind: SystemNamespaceKind) -> (r: bool)
        ensures
            r == spec_system_ns_available(self.host.scopes@, self.scope, kind),
    {
        match kind {
            SystemNamespaceKind::Public | SystemNamespaceKind::Internal => true,
            _ => {
                let mut cur = self.scope;
                let mut fuel: usize = self.host.scopes.len();
                while fuel > 0
                    invariant
                        fuel <= self.host.scopes@.len(),
                        kind == SystemNamespaceKind::Private || kind == SystemNamespaceKind::Protected,
                        spec_class_in_chain(self.host.scopes@, self.scope, self.host.scopes@.len())
                            == spec_class_in_chain(self.host.scopes@, cur, fuel as nat),
                    decreases fuel,
                {
                    match cur {
                        None => return false,
                        Some(s) => {
                            if s >= self.host.scopes.len() {
                                return false;
                            }
                            if matches!(self.host.scopes[s].kind, ScopeKind::Class { .. }) {
                                return true;
                            }
                            cur = self.host.scopes[s].parent;
                        },
                    }
                    fuel = fuel - 1;
                }
                false
            },
        }
    }

    /// The initializer cached for a pattern, computed by `callback` the first time.
    pub fn cache_var_init(&mut self, pattern: &Expression, callback: impl FnOnce() -> Entity) -> (r: Entity)
        requires
            callback.requires(()),
        ensures
            old(self).cached_var_init@.contains_key(pattern.id) ==> r == old(self).cached_var_init@[pattern.id]
                && final(self).cached_var_init@ == old(self).cached_var_init@,
            !old(self).cached_var_init@.contains_key(pattern.id) ==> callback.ensures((), r)
                && final(self).cached_var_init@ == old(self).cached_var_init@.insert(pattern.id, r),
            final(self).host == old(self).host,
            final(self).invalidated == old(self).invalidated,
            final(self).scope == old(self).scope,
            final(self).progress(*old(self)),
    {
        match self.cached_var_init.get(&pattern.id) {
            Some(init) => init.clone(),
            None => {
                let init = callback();
                self.cached_var_init.insert(pattern.id, init.clone());
                init
            },
        }
    }

    /// Records a conflict between two definitions of one name, to be
    /// reported when verification finishes; the conflicting definition is
    /// replaced by an invalidation.
    pub fn handle_definition_conflict(&mut self, prev: &Property, new: &Property) -> (r: Entity)
        ensures
            r is Invalidation,
            final(self).definition_conflicts@ == old(self).definition_conflicts@.push((*prev, *new)),
            final(self).host == old(self).host,
            final(self).invalidated == old(self).invalidated,
            final(self).scope == old(self).scope,
            final(self).progress(*old(self)),
    {
        self.definition_conflicts.push((prev.clone_property(), new.clone_property()));
        Entity::Invalidation
    }

    /// The error that reports `p` as a conflicting definition.
    pub open spec fn spec_conflict_kind(types: Seq<TypeDef>, p: Property) -> DiagnosticKind {
        match p.kind {
            PropertyKind::Type { ty } => match crate::semantics::def_of(types, ty) {
                Some(TypeDef::Interface(_)) => DiagnosticKind::DuplicateInterfaceDefinition,
                Some(TypeDef::Class(_)) | Some(TypeDef::Enum(_)) | None => DiagnosticKind::DuplicateClassDefinition,
                _ => DiagnosticKind::AConflictExistsWithDefinition,
            },
            PropertyKind::Method { .. } => DiagnosticKind::DuplicateFunctionDefinition,
            _ => DiagnosticKind::AConflictExistsWithDefinition,
        }
    }

    /// What reporting one definition of a conflict reports: an error at its
    /// location, if it has one.
    pub open spec fn spec_conflict_reports(types: Seq<TypeDef>, p: Property) -> Seq<Diagnostic> {
        match p.location {
            Some(l) => seq![Diagnostic { location: l, kind: Self::spec_conflict_kind(types, p), is_warning: false, is_syntax_error: false }],
            None => Seq::empty(),
        }
    }

    fn report_definition_conflict_for_entity(&mut self, entity: &Property)
        ensures
            entity.location is None ==> *final(self) == *old(self),
            entity.location matches Some(loc) ==> final(self).spec_error_added(*old(self), loc,
                Self::spec_conflict_kind(old(self).host.types@, *entity), false),
            entity.location matches Some(loc) ==> final(self).spec_has_error_at(loc),
            final(self).progress(*old(self)),
    {
        let loc = match entity.location {
            Some(loc) => loc,
            None => return,
        };
        match &entity.kind {
            PropertyKind::Type { ty } => {
                let kind = match self.host.get_def(ty) {
                    Some(TypeDef::Interface(_)) => DiagnosticKind::DuplicateInterfaceDefinition,
                    Some(TypeDef::Class(_)) | Some(TypeDef::Enum(_)) | None => DiagnosticKind::DuplicateClassDefinition,
                    _ => DiagnosticKind::AConflictExistsWithDefinition,
                };
                self.add_verify_error(&loc, kind)
            },
            PropertyKind::Method { .. } => self.add_verify_error(&loc, DiagnosticKind::DuplicateFunctionDefinition),
            _ => self.add_verify_error(&loc, DiagnosticKind::AConflictExistsWithDefinition),
        }
    }

    /// Reports both definitions of a conflict, each at its location; a
    /// definition without a location is not reported.
    pub fn finish_definition_conflict(&mut self, prev: &Property, new: &Property)
        ensures
            final(self).reports@ == old(self).reports@ + Self::spec_conflict_reports(old(self).host.types@, *prev)
                + Self::spec_conflict_reports(old(self).host.types@, *new),
            final(self).host.node_invalidation_mapping == old(self).host.node_invalidation_mapping,
            prev.location matches Some(l) ==> final(self).spec_has_error_at(l),
            new.location matches Some(l) ==> final(self).spec_has_error_at(l),
            prev.location matches Some(l) ==> reported(*old(self), *final(self), l, Self::spec_conflict_kind(old(self).host.types@, *prev)),
            new.location matches Some(l) ==> reported(*old(self), *final(self), l, Self::spec_conflict_kind(old(self).host.types@, *new)),
            final(self).host.types == old(self).host.types,
            final(self).progress(*old(self)),
            final(self).host.node_mapping == old(self).host.node_mapping,
            final(self).scope == old(self).scope,
            final(self).definition_conflicts == old(self).definition_conflicts,
    {
        let ghost start = *self;
        self.report_definition_conflict_for_entity(prev);
        let ghost mid = *self;
        self.report_definition_conflict_for_entity(new);
        proof {
            assert(mid.reports@ =~= start.reports@ + Self::spec_conflict_reports(start.host.types@, *prev));
            assert(self.reports@ =~= mid.reports@ + Self::spec_conflict_reports(start.host.types@, *new));
            if let Some(l) = prev.location {
                lemma_error_at_preserved(mid.host.diagnostics@, self.host.diagnostics@, l.first_offset);
                lemma_reported_by_add(start, mid, l, Self::spec_conflict_kind(start.host.types@, *prev));
                lemma_reported_widen(start, start, mid, *self, l, Self::spec_conflict_kind(start.host.types@, *prev));
            }
            if let Some(l) = new.location {
                lemma_reported_by_add(mid, *self, l, Self::spec_conflict_kind(start.host.types@, *new));
                lemma_reported_widen(start, mid, *self, *self, l, Self::spec_conflict_kind(start.host.types@, *new));
            }
        }
    }
}

/// Reference post-processing: a parameterized type that is not followed by
/// type arguments is applied to `*`, and a read-only variable with a
/// compile-time constant value expands to that constant.
pub open spec fn spec_post_process(types: Seq<TypeDef>, r: Entity, context: VerifierExpressionContext) -> Entity {
    match r {
        Entity::TypeReference { ty } => if context.followed_by_type_arguments {
            r
        } else if ty is Def && is_generic_def(types, ty) {
            Entity::TypeReference { ty: Ty::AppliedToAny(ty->Def_0) }
        } else if ty == Ty::Array {
            Entity::TypeReference { ty: Ty::ArrayOf(Box::new(Ty::Any)) }
        } else if ty == Ty::Vector {
            Entity::TypeReference { ty: Ty::VectorOf(Box::new(Ty::Any)) }
        } else if ty == Ty::Promise {
            Entity::TypeReference { ty: Ty::PromiseOf(Box::new(Ty::Any)) }
        } else {
            r
        },
        Entity::PropertyReference { base: ReferenceBase::Fixture, property, .. } => match *property {
            PropertyKind::Variable { static_type, read_only, constant, .. } => if read_only && constant is Some {
                constant.unwrap().spec_to_entity(static_type)
            } else {
                r
            },
            _ => r,
        },
        _ => r,
    }
}

/// Only a reference to a fixture (a package or class property) expands to
/// the constant it holds: a reference to a variable of a scope stays the
/// reference, whatever the variable holds.
pub proof fn law_scope_reference_is_kept(types: Seq<TypeDef>, scope: usize, index: usize, name: String,
    property: PropertyKind, context: VerifierExpressionContext)
    ensures
        spec_post_process(types, (Entity::PropertyReference { base: (ReferenceBase::Scope { scope, index }), name, property: Box::new(property) }), context)
            == (Entity::PropertyReference { base: (ReferenceBase::Scope { scope, index }), name, property: Box::new(property) }),
{
}

/// A fixture reference to a read-only variable that holds a constant
/// expands to that constant, of the variable's type.
pub proof fn law_fixture_constant_expands(types: Seq<TypeDef>, name: String, property: PropertyKind, context: VerifierExpressionContext)
    requires
        property matches PropertyKind::Variable { read_only, constant, .. } && read_only && constant is Some,
    ensures
        spec_post_process(types, (Entity::PropertyReference { base: ReferenceBase::Fixture, name, property: Box::new(property) }), context)
            == property->Variable_constant.unwrap().spec_to_entity(property->Variable_static_type),
{
}

/// The error that verifying an entity in `mode` reports where the entity
/// does not allow it.
pub open spec fn spec_mode_error(mode: VerifyMode) -> DiagnosticKind {
    match mode {
        VerifyMode::Read => DiagnosticKind::EntityIsWriteOnly,
        VerifyMode::Write => DiagnosticKind::EntityIsReadOnly,
        VerifyMode::Delete => DiagnosticKind::EntityMustNotBeDeleted,
    }
}

/// A result as the node mapping keeps it: an invalidation, or a value of
/// an invalidated type, is kept as `None`.
pub open spec fn spec_filter_result(x: Option<Entity>) -> Option<Entity> {
    match x {
        Some(v) => if v is Invalidation || v.spec_static_type() == Ty::Invalidation { None } else { x },
        None => None,
    }
}

/// What an expression that needs no verification of its parts gives:
/// XML markup, an invalidated expression, `import.meta`, `*`, `void`, a
/// chaining placeholder, a Boolean or regular-expression literal.
pub open spec fn spec_leaf_result(exp: Expression, context: VerifierExpressionContext) -> Option<Option<Entity>> {
    match exp.kind {
        ExpressionKind::XmlMarkup { .. } => Some(Some(Entity::Value { ty: Ty::Xml })),
        ExpressionKind::Invalidated => Some(None),
        ExpressionKind::ImportMeta => Some(Some(Entity::MetaProperty)),
        ExpressionKind::AnyType => Some(Some(Entity::TypeReference { ty: Ty::Any })),
        ExpressionKind::VoidType => Some(Some(Entity::TypeReference { ty: Ty::Void })),
        ExpressionKind::OptionalChainingPlaceholder => Some(None),
        ExpressionKind::BooleanLiteral { value } => Some(Some(Entity::BooleanConstant {
            value, ty: crate::exp::spec_literal_type(context, Ty::Boolean) })),
        ExpressionKind::RegExpLiteral { .. } => Some(Some(Entity::Value {
            ty: crate::exp::spec_literal_type(context, Ty::RegExp) })),
        _ => None,
    }
}

/// What verifying `exp` by its kind gives, from state `old` to state `new`:
/// the result stated by the verification of each kind of expression.
pub open spec fn spec_kind_result(old: Subverifier, new: Subverifier, exp: Expression, context: VerifierExpressionContext,
    res: Option<Entity>) -> bool {
    match spec_leaf_result(exp, context) {
        Some(x) => res == x,
        None => match exp.kind {
            ExpressionKind::QualifiedIdentifier(id) => crate::exp_names::qid_exp_done(old, new, id, context, res),
            ExpressionKind::Paren { expression } => new.has_value(expression.id, res),
            ExpressionKind::Member { .. } => crate::exp_names::member_exp_done(old, new, exp, context, res),
            ExpressionKind::ComputedMember { .. } => crate::exp_names::computed_member_exp_done(old, new, exp, context, res),
            ExpressionKind::Conditional { .. } => crate::exp::conditional_exp_done(old, new, exp, res),
            ExpressionKind::Sequence { .. } => crate::exp::seq_exp_done(old, new, exp, res),
            ExpressionKind::NullableType { .. } => crate::exp::nullable_type_exp_done(old, new, exp, res),
            ExpressionKind::NonNullableType { .. } => crate::exp::non_nullable_type_exp_done(old, new, exp, res),
            ExpressionKind::ArrayType { .. } => crate::exp::array_type_exp_done(old, new, exp, res),
            ExpressionKind::New { .. } => crate::exp_call::new_exp_done(old, new, exp, res),
            ExpressionKind::Call { .. } => crate::exp_call::call_exp_done(old, new, exp, res),
            ExpressionKind::Function { .. } => crate::function_common::function_exp_done(old, new, exp, res),
            ExpressionKind::Unary { operator, .. } => if is_unary_operator(operator) {
                crate::exp_ops::unary_exp_done(old, new, exp, res)
            } else {
                res is None
            },
            ExpressionKind::Binary { operator, .. } => if is_binary_operator(operator) {
                crate::exp_ops::binary_exp_done(old, new, exp, res)
            } else {
                res is None
            },
            ExpressionKind::Assignment { compound, .. } => if compound is None || is_compound_assignment_operator(compound.unwrap()) {
                crate::exp_ops::assignment_exp_done(old, new, exp, res)
            } else {
                res is None
            },
            _ => true,
        },
    }
}

/// `b` maps every node that `a` maps, other than `id`, as `a` does.
pub open spec fn mapping_agrees_except(a: Subverifier, b: Subverifier, id: u64) -> bool {
    forall|i: u64| #[trigger] a.host.node_mapping@.contains_key(i) && i != id ==> {
        &&& b.host.node_mapping@.contains_key(i)
        &&& b.host.node_mapping@[i] == a.host.node_mapping@[i]
        &&& b.host.node_invalidation_mapping@.contains_key(i) == a.host.node_invalidation_mapping@.contains_key(i)
    }
}

/// The value that the inline configuration constant `id` expands to.
pub open spec fn spec_inline_value(v: Subverifier, id: crate::ast::QualifiedIdentifier) -> Option<Entity> {
    match spec_inline_constant(v, id) {
        Some((n, c)) => spec_eval_config(v.host.config_constants_result@, n, c@),
        None => None,
    }
}

/// Whether `t` is a generic class or interface of the type table.
pub open spec fn is_generic_def(types: Seq<TypeDef>, t: Ty) -> bool {
    match crate::semantics::def_of(types, t) {
        Some(TypeDef::Class(c)) => c.type_param_count > 0,
        Some(TypeDef::Interface(d)) => d.type_param_count > 0,
        _ => false,
    }
}

/// Whether verifying `v` in `mode` reports an error: reading a write-only
/// entity, writing a read-only one, or deleting one that cannot be deleted.
pub open spec fn spec_mode_violation(v: Entity, mode: VerifyMode) -> bool {
    match mode {
        VerifyMode::Read => v.spec_write_only(),
        VerifyMode::Write => v.spec_read_only(),
        VerifyMode::Delete => !v.spec_deletable(),
    }
}

impl Subverifier {
    /// Post-processes an already resolved reference: a generic type not
    /// followed by type arguments is applied to `*` for each parameter, and a
    /// read-only variable of a package or class (a fixture) that has a
    /// constant becomes that constant. A reference to a local variable is
    /// left as it is.
    pub fn reference_post_processing(&self, r: Entity, context: &VerifierExpressionContext) -> (res: Entity)
        ensures
            res == spec_post_process(self.host.types@, r, *context),
    {
        match &r {
            Entity::TypeReference { ty } => {
                if context.followed_by_type_arguments {
                    return r;
                }
                if let Ty::Def(k) = ty {
                    let generic = match self.host.get_def(ty) {
                        Some(TypeDef::Class(c)) => c.type_param_count > 0,
                        Some(TypeDef::Interface(d)) => d.type_param_count > 0,
                        _ => false,
                    };
                    if generic {
                        return Entity::TypeReference { ty: Ty::AppliedToAny(*k) };
                    }
                }
                match ty {
                    Ty::Array => Entity::TypeReference { ty: Ty::ArrayOf(Box::new(Ty::Any)) },
                    Ty::Vector => Entity::TypeReference { ty: Ty::VectorOf(Box::new(Ty::Any)) },
                    Ty::Promise => Entity::TypeReference { ty: Ty::PromiseOf(Box::new(Ty::Any)) },
                    _ => r,
                }
            },
            Entity::PropertyReference { base: ReferenceBase::Fixture, property, .. } => match &**property {
                PropertyKind::Variable { static_type, read_only, constant, .. } => {
                    if *read_only {
                        if let Some(c) = constant {
                            return c.to_entity(static_type.clone());
                        }
                    }
                    r
                },
                _ => r,
            },
            _ => r,
        }
    }

    /// Marks a local captured by a nested activation: a reference to a
    /// property of a scope whose activation is not the current activation.
    pub fn detect_local_capture(&mut self, reference: &Entity)
        ensures
            final(self).step(*old(self)),
            final(self).host.node_mapping == old(self).host.node_mapping,
            final(self).host.scopes@.len() == old(self).host.scopes@.len(),
            forall|i: int| 0 <= i < old(self).host.scopes@.len() ==> {
                &&& (#[trigger] final(self).host.scopes@[i]).kind == old(self).host.scopes@[i].kind
                &&& final(self).host.scopes@[i].parent == old(self).host.scopes@[i].parent
                &&& final(self).host.scopes@[i].imports == old(self).host.scopes@[i].imports
                &&& final(self).host.scopes@[i].properties@.len() == old(self).host.scopes@[i].properties@.len()
            },
            forall|i: int, j: int| 0 <= i < old(self).host.scopes@.len() && 0 <= j < old(self).host.scopes@[i].properties@.len()
                ==> #[trigger] final(self).host.scopes@[i].properties@[j] == if spec_capture_target(*old(self), *reference) == Some((i, j)) {
                    Property { has_capture: true, ..old(self).host.scopes@[i].properties@[j] }
                } else {
                    old(self).host.scopes@[i].properties@[j]
                },
            final(self).scope == old(self).scope,
            final(self).host.diagnostics == old(self).host.diagnostics,
            final(self).host.types == old(self).host.types,
            final(self).host.node_invalidation_mapping == old(self).host.node_invalidation_mapping,
            final(self).invalidated == old(self).invalidated,
    {
        if let Entity::PropertyReference { base: ReferenceBase::Scope { scope, index }, .. } = reference {
            let saved = self.scope;
            self.scope = Some(*scope);
            let r_act = self.search_activation();
            self.scope = saved;
            let cur_act = self.search_activation();
            if let (Some(a), Some(b)) = (r_act, cur_act) {
                if a != b && *scope < self.host.scopes.len() && *index < self.host.scopes[*scope].properties.len() {
                    self.host.scopes[*scope].properties[*index].has_capture = true;
                }
            }
        }
    }

    /// Verifies an expression, caching its result in the node mapping; an
    /// expression already verified gives back its cached result.
    #[verifier::spinoff_prover]
    pub fn verify_expression(&mut self, exp: &Expression, context: &VerifierExpressionContext) -> (r: Result<Option<Entity>, DeferError>)
        requires
            old(self).scope is Some || old(self).host.node_mapping@.contains_key(exp.id)
                || spec_leaf_result(*exp, *context) is Some,
        ensures
            final(self).step(*old(self)),
            old(self).host.node_mapping@.contains_key(exp.id) ==> r == ok(old(self).value_of(exp.id)) && *final(self) == *old(self),
            r matches Ok(v) ==> final(self).has_value(exp.id, v),
            !old(self).host.node_mapping@.contains_key(exp.id) && r is Ok
                ==> !final(self).host.node_invalidation_mapping@.contains_key(exp.id),
            !old(self).host.node_mapping@.contains_key(exp.id) ==> (r matches Ok(Some(v)) ==> {
                &&& !(v is Invalidation)
                &&& v.spec_static_type() != Ty::Invalidation
                &&& spec_mode_violation(v, context.mode) ==> final(self).spec_has_error_at(exp.location)
                    && reported(*old(self), *final(self), exp.location, spec_mode_error(context.mode))
            }),
            !old(self).host.node_mapping@.contains_key(exp.id) ==> match spec_leaf_result(*exp, *context) {
                Some(x) => r == ok(spec_filter_result(x)),
                None => true,
            },
            !old(self).host.node_mapping@.contains_key(exp.id) ==> match exp.kind {
                ExpressionKind::QualifiedIdentifier(id) => spec_inline_constant(*old(self), id) is Some
                    ==> r == ok(spec_filter_result(spec_inline_value(*old(self), id))),
                _ => true,
            },
            operands_settled(*old(self), *exp) ==> r is Ok,
            !old(self).host.node_mapping@.contains_key(exp.id) ==> match exp.kind {
                ExpressionKind::Paren { expression } => old(self).is_verified(expression.id)
                    ==> r == ok(spec_filter_result(old(self).value_of(expression.id))),
                ExpressionKind::Unary { operator, .. } => !is_unary_operator(operator) ==> r == ok(None),
                ExpressionKind::Binary { operator, .. } => !is_binary_operator(operator) ==> r == ok(None),
                ExpressionKind::Assignment { compound: Some(op), .. } => !is_compound_assignment_operator(op) ==> r == ok(None),
                ExpressionKind::VectorLiteral { elements, .. } => !no_elision(elements@) ==> r == ok(None),
                _ => true,
            },
            !old(self).host.node_mapping@.contains_key(exp.id) ==> match r {
                Ok(x) => exists|mid: Subverifier, res: Option<Entity>| #![trigger spec_kind_result(*old(self), mid, *exp, *context, res)]
                    spec_kind_result(*old(self), mid, *exp, *context, res) && x == spec_filter_result(res)
                    && mid.progress(*old(self)) && mapping_agrees_except(mid, *final(self), exp.id),
                Err(_) => true,
            },
        decreases exp, 3nat,
    {
        if self.host.node_mapping.contains_key(&exp.id) {
            return Ok(clone_opt(self.host.node_mapping.get(&exp.id).unwrap()));
        }
        let ghost start = *self;
        let mut result: Option<Entity> = self.verify_expression_kind(exp, context)?;
        let ghost mid = *self;
        let ghost raw = result;
        if let Some(r1) = &result {
            if r1.is_invalidation() || r1.static_type().is(Ty::Invalidation) {
                result = None;
            }
        }
        self.host.node_mapping.insert(exp.id, clone_opt(&result));
        if self.host.node_invalidation_mapping.contains_key(&exp.id) {
            self.host.node_invalidation_mapping.remove(&exp.id);
        }
        proof {
            assert(mapping_agrees_except(mid, *self, exp.id));
            assert(spec_kind_result(start, mid, *exp, *context, raw));
        }
        let result = match result {
            None => return Ok(None),
            Some(r1) => r1,
        };
        let ghost s1 = *self;
        match context.mode {
            VerifyMode::Read => {
                if result.write_only() {
                    self.add_verify_error(&exp.location, DiagnosticKind::EntityIsWriteOnly);
                }
            },
            VerifyMode::Write => {
                if result.read_only() {
                    self.add_verify_error(&exp.location, DiagnosticKind::EntityIsReadOnly);
                }
            },
            VerifyMode::Delete => {
                if !result.deletable() {
                    self.add_verify_error(&exp.location, DiagnosticKind::EntityMustNotBeDeleted);
                }
            },
        }
        proof {
            if spec_mode_violation(result, context.mode) {
                assert(self.reports@[s1.reports@.len() as int]
                    == (Diagnostic { location: exp.location, kind: spec_mode_error(context.mode), is_warning: false, is_syntax_error: false }));
                assert(start.reports@.len() <= s1.reports@.len());
            }
        }
        Ok(Some(result))
    }

    /// Verifies an expression by its kind, without the cache.
    fn verify_expression_kind(&mut self, exp: &Expression, context: &VerifierExpressionContext) -> (r: Result<Option<Entity>, DeferError>)
        requires
            old(self).scope is Some || spec_leaf_result(*exp, *context) is Some,
        ensures
            final(self).step(*old(self)),
            match spec_leaf_result(*exp, *context) {
                Some(x) => r == ok(x) && *final(self) == *old(self),
                None => true,
            },
            match exp.kind {
                ExpressionKind::QualifiedIdentifier(id) => spec_inline_constant(*old(self), id) is Some
                    ==> r == ok(spec_inline_value(*old(self), id)),
                _ => true,
            },
            match exp.kind {
                ExpressionKind::Paren { expression } => (r matches Ok(v) ==> final(self).has_value(expression.id, v))
                    && (old(self).is_verified(expression.id) ==> r == ok(old(self).value_of(expression.id))
                        && *final(self) == *old(self)),
                ExpressionKind::Unary { operator, .. } => !is_unary_operator(operator) ==> r == ok(None) && *final(self) == *old(self),
                ExpressionKind::Binary { operator, .. } => !is_binary_operator(operator) ==> r == ok(None) && *final(self) == *old(self),
                ExpressionKind::Assignment { compound: Some(op), .. } => !is_compound_assignment_operator(op)
                    ==> r == ok(None) && *final(self) == *old(self),
                ExpressionKind::VectorLiteral { elements, .. } => !no_elision(elements@) ==> r == ok(None) && *final(self) == *old(self),
                _ => true,
            },
            operands_settled(*old(self), *exp) ==> r is Ok,
            r matches Ok(res) ==> spec_kind_result(*old(self), *final(self), *exp, *context, res),
        decreases exp, 2nat,
    {
        proof {
            assert(decreases_to!(*exp => exp.kind));
        }
        let result = match &exp.kind {
            ExpressionKind::QualifiedIdentifier(id) => ExpSubverifier::verify_qualified_identifier_as_exp(self, id, context)?,
            ExpressionKind::NumericLiteral { .. } => ExpSubverifier::verify_numeric_literal(self, exp, context)?,
            ExpressionKind::StringLiteral { .. } => ExpSubverifier::verify_string_literal(self, exp, context)?,
            ExpressionKind::Paren { expression } => self.verify_expression(expression, context)?,
            ExpressionKind::NullLiteral => ExpSubverifier::verify_null_literal(self, exp, context)?,
            ExpressionKind::BooleanLiteral { .. } => ExpSubverifier::verify_boolean_literal(self, exp, context)?,
            ExpressionKind::ThisLiteral => ExpSubverifier::verify_this_literal(self, exp)?,
            ExpressionKind::RegExpLiteral { .. } => ExpSubverifier::verify_reg_exp_literal(self, exp, context)?,
            ExpressionKind::XmlMarkup { .. } => Some(Entity::Value { ty: Ty::Xml }),
            ExpressionKind::Invalidated => None,
            ExpressionKind::ImportMeta => Some(Entity::MetaProperty),
            ExpressionKind::Conditional { .. } => ExpSubverifier::verify_conditional_exp(self, exp, context)?,
            ExpressionKind::Sequence { .. } => ExpSubverifier::verify_seq_exp(self, exp)?,
            ExpressionKind::ReservedNamespace { .. } => ExpSubverifier::verify_reserved_ns_exp(self, exp)?,
            ExpressionKind::NullableType { .. } => ExpSubverifier::verify_nullable_type_exp(self, exp)?,
            ExpressionKind::NonNullableType { .. } => ExpSubverifier::verify_non_nullable_type_exp(self, exp)?,
            ExpressionKind::AnyType => Some(Entity::TypeReference { ty: Ty::Any }),
            ExpressionKind::VoidType => Some(Entity::TypeReference { ty: Ty::Void }),
            ExpressionKind::ArrayType { .. } => ExpSubverifier::verify_array_type_exp(self, exp)?,
            ExpressionKind::TupleType { .. } => ExpSubverifier::verify_tuple_type_exp(self, exp)?,
            ExpressionKind::Member { .. } => ExpSubverifier::verify_member_exp(self, exp, context)?,
            ExpressionKind::ComputedMember { .. } => ExpSubverifier::verify_computed_member_exp(self, exp, context)?,
            ExpressionKind::Xml { .. } => ExpSubverifier::verify_xml_exp(self, exp, context)?,
            ExpressionKind::XmlList { .. } => ExpSubverifier::verify_xml_list_exp(self, exp, context)?,
            ExpressionKind::Descendants { .. } => ExpSubverifier::verify_descendants_exp(self, exp)?,
            ExpressionKind::Filter { .. } => ExpSubverifier::verify_filter_exp(self, exp)?,
            ExpressionKind::Super { .. } => ExpSubverifier::verify_super_exp(self, exp)?,
            ExpressionKind::OptionalChaining { .. } => ExpSubverifier::verify_opt_chaining_exp(self, exp)?,
            ExpressionKind::New { .. } => ExpSubverifier::verify_new_exp(self, exp)?,
            ExpressionKind::Call { .. } => ExpSubverifier::verify_call_exp(self, exp)?,
            ExpressionKind::FunctionType { .. } => ExpSubverifier::verify_function_type_exp(self, exp)?,
            ExpressionKind::WithTypeArguments { .. } => ExpSubverifier::verify_apply_types_exp(self, exp)?,
            ExpressionKind::Assignment { compound, .. } => if compound.is_none() || compound_assignment_operator(compound.unwrap()) {
                ExpSubverifier::verify_assignment_exp(self, exp)?
            } else {
                None
            },
            ExpressionKind::ArrayLiteral { .. } => ArraySubverifier::verify_array_literal(self, exp, context)?,
            ExpressionKind::VectorLiteral { elements, .. } => if has_no_elision(elements) {
                ArraySubverifier::verify_vector_literal(self, exp, context)?
            } else {
                None
            },
            ExpressionKind::ObjectInitializer { .. } => ObjectLiteralSubverifier::verify_object_initializer(self, exp, context)?,
            ExpressionKind::Function { .. } => ExpSubverifier::verify_function_exp(self, exp)?,
            ExpressionKind::Unary { operator, .. } => if unary_operator(*operator) {
                ExpSubverifier::verify_unary_exp(self, exp)?
            } else {
                None
            },
            ExpressionKind::Binary { operator, .. } => if binary_operator(*operator) {
                ExpSubverifier::verify_binary_exp(self, exp)?
            } else {
                None
            },
            _ => None,
        };
        Ok(result)
    }

    /// The scope created for the node `id`, created as a plain scope the first time.
    pub fn scope_for_node(&mut self, id: u64) -> (r: usize)
        ensures
            final(self).step(*old(self)),
            r < final(self).host.scopes@.len(),
            final(self).host.node_mapping == old(self).host.node_mapping,
            final(self).host.types == old(self).host.types,
            final(self).host.diagnostics == old(self).host.diagnostics,
            final(self).invalidated == old(self).invalidated,
            final(self).node_scopes@.contains_key(id) && final(self).node_scopes@[id] == r,
            final(self).phase_of_drtv == old(self).phase_of_drtv,
    {
        if let Some(s) = self.node_scopes.get(&id) {
            if *s < self.host.scopes.len() {
                return *s;
            }
        }
        let s = self.host.create_scope(ScopeKind::Plain);
        self.node_scopes.insert(id, s);
        s
    }

    /// The nearest scope in the chain of the current scope that holds
    /// hoisted definitions and imports: an activation, a class, a package,
    /// or the outermost scope.
    pub fn search_hoist_scope(&self) -> (r: Option<usize>)
        ensures
            r matches Some(s) ==> s < self.host.scopes@.len(),
            self.scope matches Some(s) && s < self.host.scopes@.len() ==> r is Some,
    {
        let mut cur = match self.scope {
            Some(s) => s,
            None => return None,
        };
        if cur >= self.host.scopes.len() {
            return None;
        }
        let mut fuel: usize = self.host.scopes.len();
        while fuel > 0
            invariant
                cur < self.host.scopes@.len(),
            decreases fuel,
        {
            if matches!(self.host.scopes[cur].kind, ScopeKind::Activation { .. } | ScopeKind::Class { .. } | ScopeKind::Package { .. }) {
                return Some(cur);
            }
            match self.host.scopes[cur].parent {
                Some(p) => {
                    if p >= self.host.scopes.len() {
                        return Some(cur);
                    }
                    cur = p;
                },
                None => return Some(cur),
            }
            fuel = fuel - 1;
        }
        Some(cur)
    }

    /// Maps the node `id` to `v`, unless it is already mapped.
    pub fn map_node(&mut self, id: u64, v: Option<Entity>)
        ensures
            final(self).step(*old(self)),
            old(self).host.node_mapping@.contains_key(id) ==> *final(self) == *old(self),
            !old(self).host.node_mapping@.contains_key(id) ==> final(self).has_result(id, v),
            final(self).host.types == old(self).host.types,
            final(self).host.diagnostics == old(self).host.diagnostics,
            final(self).host.scopes == old(self).host.scopes,
    {
        if self.host.node_mapping.contains_key(&id) {
            return;
        }
        self.host.node_mapping.insert(id, v);
        if self.host.node_invalidation_mapping.contains_key(&id) {
            self.host.node_invalidation_mapping.remove(&id);
        }
    }

    /// Verifies each expression of a list in a plain read context.
    pub fn verify_each(&mut self, exps: &Vec<Expression>) -> (r: Result<(), DeferError>)
        requires
            old(self).scope is Some,
        ensures
            final(self).step(*old(self)),
            r is Ok ==> forall|i: int| 0 <= i < exps@.len() ==> final(self).host.node_mapping@.contains_key((#[trigger] exps@[i]).id),
            (forall|i: int| 0 <= i < exps@.len() ==> old(self).is_verified((#[trigger] exps@[i]).id))
                ==> r is Ok && *final(self) == *old(self),
        decreases exps, 0nat,
    {
        let ghost start = *self;
        let mut i: usize = 0;
        while i < exps.len()
            invariant
                i <= exps@.len(),
                start == *old(self),
                self.step(start),
                self.scope is Some,
                forall|j: int| 0 <= j < i ==> self.host.node_mapping@.contains_key((#[trigger] exps@[j]).id),
                (forall|j: int| 0 <= j < exps@.len() ==> start.is_verified((#[trigger] exps@[j]).id)) ==> *self == start,
            decreases exps@.len() - i,
        {
            let ghost before = *self;
            proof {
                assert(decreases_to!(*exps => exps@));
                assert(decreases_to!(exps@ => exps@[i as int]));
            }
            let v = self.verify_expression(&exps[i], &default_context());
            proof {
                crate::exp::lemma_step_trans(start, before, *self);
            }
            v?;
            i = i + 1;
        }
        Ok(())
    }

    /// Verifies a type expression: the type it denotes, or `None` with an
    /// error when it does not denote a type.
    #[verifier::spinoff_prover]
    pub fn verify_type_expression(&mut self, exp: &Expression) -> (r: Result<Option<Ty>, DeferError>)
        requires
            old(self).scope is Some,
        ensures
            final(self).step(*old(self)),
            r matches Ok(v) ==> final(self).host.node_mapping@.contains_key(exp.id)
                && (v matches Some(t) ==> final(self).result_of(exp.id) == Some(Entity::TypeReference { ty: t }))
                && (v is None ==> !(final(self).result_of(exp.id) matches Some(Entity::TypeReference { .. }))),
            old(self).host.node_mapping@.contains_key(exp.id) ==> *final(self) == *old(self) && r is Ok,
            old(self).host.node_mapping@.contains_key(exp.id) ==> r == (if old(self).host.node_invalidation_mapping@.contains_key(exp.id) {
                Ok::<Option<Ty>, DeferError>(None)
            } else {
                match old(self).value_of(exp.id) {
                    Some(e) => Ok::<Option<Ty>, DeferError>(e.spec_as_type()),
                    None => Ok::<Option<Ty>, DeferError>(None),
                }
            }),
            !old(self).host.node_mapping@.contains_key(exp.id) && r is Ok ==> match final(self).value_of(exp.id) {
                Some(e) => match e.spec_as_type() {
                    Some(t) => r == Ok::<Option<Ty>, DeferError>(Some(t))
                        && !final(self).host.node_invalidation_mapping@.contains_key(exp.id),
                    None => r == Ok::<Option<Ty>, DeferError>(None)
                        && final(self).host.node_invalidation_mapping@.contains_key(exp.id)
                        && reported(*old(self), *final(self), exp.location, DiagnosticKind::EntityIsNotAType),
                },
                None => r == Ok::<Option<Ty>, DeferError>(None),
            },
            operands_settled(*old(self), *exp) ==> r is Ok,
        decreases exp, 4nat,
    {
        if self.host.node_mapping.contains_key(&exp.id) {
            if self.host.node_invalidation_mapping.contains_key(&exp.id) {
                return Ok(None);
            }
            return match self.host.node_mapping.get(&exp.id).unwrap() {
                Some(e) => Ok(e.as_type()),
                None => Ok(None),
            };
        }
        let v = self.verify_expression(exp, &default_context())?;
        let v = match v {
            None => return Ok(None),
            Some(v) => v,
        };
        match v.as_type() {
            None => {
                let ghost s1 = *self;
                self.add_verify_error(&exp.location, DiagnosticKind::EntityIsNotAType);
                let ghost s2 = *self;
                self.host.node_invalidation_mapping.insert(exp.id, true);
                proof {
                    lemma_reported_by_add(s1, s2, exp.location, DiagnosticKind::EntityIsNotAType);
                    assert(self.reports == s2.reports);
                    assert(self.reports@[s1.reports@.len() as int] == s2.reports@[s1.reports@.len() as int]);
                }
                Ok(None)
            },
            Some(t) => Ok(Some(t)),
        }
    }

    /// Verifies an expression where a value of `target_type` is expected and
    /// implicitly coerces it to that type; a coercion to an unrelated type is
    /// an error.
    #[verifier::spinoff_prover]
    pub fn imp_coerce_exp(&mut self, exp: &Expression, target_type: &Ty) -> (r: Result<Option<Entity>, DeferError>)
        requires
            old(self).scope is Some,
        ensures
            final(self).step(*old(self)),
            old(self).host.node_mapping@.contains_key(exp.id) ==> r == ok(old(self).result_of(exp.id)) && *final(self) == *old(self),
            r matches Ok(v) ==> final(self).has_result(exp.id, v),
            !old(self).host.node_mapping@.contains_key(exp.id) ==> (r matches Ok(Some(v)) ==> v.spec_static_type() == *target_type),
            !old(self).host.node_mapping@.contains_key(exp.id) && r is Ok ==> match final(self).value_of(exp.id) {
                Some(v) => if final(self).host.node_invalidation_mapping@.contains_key(exp.id) {
                    &&& r == ok(None)
                    &&& spec_implicit(final(self).host.types@, v, *target_type) is None
                    &&& reported(*old(self), *final(self), exp.location, DiagnosticKind::ImplicitCoercionToUnrelatedType)
                } else {
                    r == ok(Some(v))
                },
                None => r == ok(None),
            },
            operands_settled(*old(self), *exp) ==> r is Ok,
            !old(self).host.node_mapping@.contains_key(exp.id) ==> match r {
                Ok(Some(v)) => exists|mid: Subverifier, res: Option<Entity>, w: Entity|
                    #![trigger spec_kind_result(*old(self), mid, *exp, VerifierExpressionContext::spec_with_type(Some(*target_type)), res), spec_implicit(final(self).host.types@, w, *target_type)]
                    spec_kind_result(*old(self), mid, *exp, VerifierExpressionContext::spec_with_type(Some(*target_type)), res)
                    && spec_filter_result(res) == Some(w) && mid.progress(*old(self))
                    && spec_implicit(final(self).host.types@, w, *target_type) == Some(v),
                _ => true,
            },
        decreases exp, 4nat,
    {
        if self.host.node_mapping.contains_key(&exp.id) {
            if self.host.node_invalidation_mapping.contains_key(&exp.id) {
                return Ok(None);
            }
            return Ok(clone_opt(self.host.node_mapping.get(&exp.id).unwrap()));
        }
        let v = self.verify_expression(exp, &VerifierExpressionContext::with_type(Some(target_type.clone())))?;
        let v = match v {
            None => return Ok(None),
            Some(v) => v,
        };
        match self.host.implicit(&v, target_type) {
            None => {
                let ghost s1 = *self;
                self.add_verify_error(&exp.location, DiagnosticKind::ImplicitCoercionToUnrelatedType);
                let ghost s2 = *self;
                self.host.node_invalidation_mapping.insert(exp.id, true);
                proof {
                    lemma_reported_by_add(s1, s2, exp.location, DiagnosticKind::ImplicitCoercionToUnrelatedType);
                    assert(self.reports@[s1.reports@.len() as int] == s2.reports@[s1.reports@.len() as int]);
                }
                Ok(None)
            },
            Some(c) => {
                let ghost s1 = *self;
                self.host.node_mapping.insert(exp.id, Some(c.clone()));
                proof {
                    assert(self.host.types@ == s1.host.types@);
                    let ctx = VerifierExpressionContext::spec_with_type(Some(*target_type));
                    let (mid, res) = choose|mid: Subverifier, res: Option<Entity>|
                        #![trigger spec_kind_result(*old(self), mid, *exp, ctx, res)]
                        spec_kind_result(*old(self), mid, *exp, ctx, res) && Some(v) == spec_filter_result(res)
                        && mid.progress(*old(self)) && mapping_agrees_except(mid, s1, exp.id);
                    assert(spec_kind_result(*old(self), mid, *exp, ctx, res));
                    assert(spec_implicit(self.host.types@, v, *target_type) == Some(c));
                }
                Ok(Some(c))
            },
        }
    }
}

} // verus!
