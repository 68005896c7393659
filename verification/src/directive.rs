//! Verification of directives: blocks, imports, configuration directives,
//! `use namespace`, variable and function definitions.
use vstd::prelude::*;
use crate::ast::{Expression, ExpressionKind, Directive, DirectiveKind, Block, Attribute, ImportSpecifier, VariableBinding};
use crate::diagnostics::{Diagnostic, DiagnosticKind};
use crate::semantics::{Ty, Entity, Import, ScopeKind, Database, PropertyKind, ReferenceBase, spec_slot_type, spec_slot_constant};
use crate::function_common::FunctionCommonSubverifier;
use crate::resolution::find_property;
use crate::subverifier::{Subverifier, VerifierPhase, DeferError, finished_ok, default_context, error_at, warning_at, lemma_error_at_preserved, lemma_warning_at_preserved,
    ever_reported, ever_warned, lemma_ever_reported_kept, reported, lemma_reported_by_add, lemma_reported_widen};
use crate::exp::{ExpSubverifier, lemma_results_stable, lemma_step_trans, lemma_scoped_step};
use crate::exp_names::find_key;

verus! {

broadcast use vstd::std_specs::hash::group_hash_axioms;

/// The directives whose verification goes through phases, and which are
/// not verified again once finished.
pub open spec fn is_phased(kind: DirectiveKind) -> bool {
    match kind {
        DirectiveKind::VariableDefinition { .. } | DirectiveKind::FunctionDefinition { .. } | DirectiveKind::Block { .. }
        | DirectiveKind::UseNamespace { .. } | DirectiveKind::Configuration { .. } | DirectiveKind::Injection { .. }
        | DirectiveKind::Import { .. } | DirectiveKind::PackageConcat { .. } => true,
        DirectiveKind::Include { nested_directives, .. } => nested_directives@.len() > 0,
        _ => false,
    }
}

/// Whether the directive `id` has finished its verification in `v`.
pub open spec fn is_finished(v: Subverifier, id: u64) -> bool {
    v.phase_of_drtv@.contains_key(id) && v.phase_of_drtv@[id] == VerifierPhase::Finished
}

/// Whether every directive of `list` has phases and has finished in `v`.
pub open spec fn all_finished(v: Subverifier, list: Seq<Directive>) -> bool {
    forall|i: int| 0 <= i < list.len() ==> is_phased((#[trigger] list[i]).kind) && is_finished(v, list[i].id)
}

/// Every directive of `list` that goes through phases (other than a
/// configuration directive) has been verified to the end.
pub open spec fn all_recorded(v: Subverifier, list: Seq<Directive>) -> bool {
    forall|i: int| 0 <= i < list.len() && is_phased((#[trigger] list[i]).kind) && !(list[i].kind is Configuration)
        ==> v.finished@.contains(list[i].id)
}

/// Whether two lists of names are equal.
pub open spec fn package_name_is(p: Seq<String>, names: Seq<String>) -> bool {
    p.len() == names.len() && forall|i: int| 0 <= i < p.len() ==> (#[trigger] p[i])@ == names[i]@
}

impl Database {
    /// The package named `names`, if there is one.
    pub fn find_package(&self, names: &Vec<String>) -> (r: Option<usize>)
        ensures
            r matches Some(p) ==> p < self.packages@.len() && package_name_is(self.packages@[p as int].name@, names@),
            r is None ==> forall|p: int| 0 <= p < self.packages@.len() ==> !package_name_is(#[trigger] self.packages@[p].name@, names@),
    {
        let mut p: usize = 0;
        while p < self.packages.len()
            invariant
                p <= self.packages@.len(),
                forall|q: int| 0 <= q < p ==> !package_name_is(#[trigger] self.packages@[q].name@, names@),
            decreases self.packages@.len() - p,
        {
            let name = &self.packages[p].name;
            if name.len() == names.len() {
                let mut i: usize = 0;
                let mut same = true;
                while i < name.len()
                    invariant
                        i <= name@.len(),
                        name@.len() == names@.len(),
                        same <==> forall|j: int| 0 <= j < i ==> (#[trigger] name@[j])@ == names@[j]@,
                    decreases name@.len() - i,
                {
                    if name[i] != names[i] {
                        same = false;
                    }
                    i = i + 1;
                }
                if same {
                    return Some(p);
                }
            }
            p = p + 1;
        }
        None
    }

    /// The package named `names`, created empty if there is none.
    pub fn package_or_create(&mut self, names: &Vec<String>) -> (r: usize)
        ensures
            r < final(self).packages@.len(),
            package_name_is(final(self).packages@[r as int].name@, names@),
            old(self).packages@.len() <= final(self).packages@.len(),
            forall|i: int| 0 <= i < old(self).packages@.len() ==> #[trigger] final(self).packages@[i] == old(self).packages@[i],
            final(self).scopes == old(self).scopes,
            final(self).types == old(self).types,
            final(self).node_mapping == old(self).node_mapping,
            final(self).node_invalidation_mapping == old(self).node_invalidation_mapping,
            final(self).diagnostics == old(self).diagnostics,
            final(self).config_constants == old(self).config_constants,
            final(self).config_constants_result == old(self).config_constants_result,
    {
        if let Some(p) = self.find_package(names) {
            return p;
        }
        let mut name: Vec<String> = Vec::new();
        let mut i: usize = 0;
        while i < names.len()
            invariant
                i <= names@.len(),
                name@.len() == i,
                forall|j: int| 0 <= j < i ==> (#[trigger] name@[j])@ == names@[j]@,
            decreases names@.len() - i,
        {
            name.push(names[i].clone());
            i = i + 1;
        }
        let r = self.packages.len();
        self.packages.push(crate::semantics::Package { name, properties: Vec::new(), concats: Vec::new() });
        r
    }
}

/// Verification of directives.
pub struct DirectiveSubverifier;

impl DirectiveSubverifier {
    /// Verifies a list of directives; it is deferred if any is deferred.
    /// A list whose directives have all finished is left as it is.
    pub fn verify_directives(verifier: &mut Subverifier, list: &Vec<Directive>) -> (r: Result<(), DeferError>)
        requires
            old(verifier).scope is Some,
        ensures
            final(verifier).step(*old(verifier)),
            all_finished(*old(verifier), list@) ==> *final(verifier) == *old(verifier) && r is Ok,
            r is Ok && list@.len() > 0 && is_phased(list@.last().kind) && !(list@.last().kind is Configuration)
                ==> is_finished(*final(verifier), list@.last().id),
            finished_ok(*old(verifier)) && r is Ok ==> all_recorded(*final(verifier), list@),
        decreases list, 2nat,
    {
        let ghost start = *verifier;
        let mut any_defer = false;
        let mut i: usize = 0;
        while i < list.len()
            invariant
                i <= list@.len(),
                start == *old(verifier),
                verifier.step(start),
                verifier.scope is Some,
                all_finished(start, list@) ==> *verifier == start && !any_defer,
                i > 0 && !any_defer && is_phased(list@[i - 1].kind) && !(list@[i - 1].kind is Configuration)
                    ==> is_finished(*verifier, list@[i - 1].id),
                finished_ok(start) && !any_defer ==> all_recorded(*verifier, list@.take(i as int)),
            decreases list@.len() - i,
        {
            let ghost before = *verifier;
            proof {
                assert(decreases_to!(*list => list@));
                assert(decreases_to!(list@ => list@[i as int]));
            }
            let r = Self::verify_directive(verifier, &list[i]).is_err();
            proof {
                lemma_step_trans(start, before, *verifier);
                if finished_ok(start) && !any_defer && !r {
                    assert forall|j: int| 0 <= j < i + 1 && is_phased((#[trigger] list@.take(i + 1)[j]).kind)
                        && !(list@.take(i + 1)[j].kind is Configuration) implies verifier.finished@.contains(list@.take(i + 1)[j].id) by {
                        if j < i {
                            assert(list@.take(i + 1)[j] == list@.take(i as int)[j]);
                            assert(before.finished@.contains(list@.take(i as int)[j].id));
                        }
                    }
                }
            }
            any_defer = any_defer || r;
            i = i + 1;
        }
        proof { assert(list@.take(i as int) =~= list@); }
        if any_defer { Err(DeferError) } else { Ok(()) }
    }

    /// Verifies the directives of a block in the block's own scope.
    pub fn verify_block(verifier: &mut Subverifier, block: &Block) -> (r: Result<(), DeferError>)
        requires
            old(verifier).scope is Some,
        ensures
            final(verifier).step(*old(verifier)),
            old(verifier).phase_of_block@.contains_key(block.id) && old(verifier).phase_of_block@[block.id] == VerifierPhase::Finished
                ==> *final(verifier) == *old(verifier) && r is Ok,
            r is Ok ==> final(verifier).phase_of_block@.contains_key(block.id)
                && final(verifier).phase_of_block@[block.id] == VerifierPhase::Finished,
            finished_ok(*old(verifier)) && r is Ok && !(old(verifier).phase_of_block@.get(block.id) == Some(VerifierPhase::Finished))
                ==> all_recorded(*final(verifier), block.directives@),
        decreases block, 2nat,
    {
        let ghost start = *verifier;
        let phase = verifier.lazy_init_block_phase(block, VerifierPhase::Alpha);
        if phase == VerifierPhase::Finished {
            return Ok(());
        }
        let ghost s0 = *verifier;
        let saved = verifier.scope;
        let scope = verifier.scope_for_node(block.id);
        verifier.inherit_and_enter_scope(scope);
        let ghost s1 = *verifier;
        proof { assert(decreases_to!(*block => block.directives)); }
        let any_defer = Self::verify_directives(verifier, &block.directives).is_err();
        let ghost s2 = *verifier;
        verifier.exit_scope();
        verifier.scope = saved;
        proof {
            lemma_scoped_step(s0, s1, s2, *verifier);
            lemma_step_trans(start, s0, *verifier);
            if finished_ok(start) && !any_defer {
                assert(finished_ok(s1));
                assert forall|i: int| 0 <= i < block.directives@.len() && is_phased((#[trigger] block.directives@[i]).kind)
                    && !(block.directives@[i].kind is Configuration) implies verifier.finished@.contains(block.directives@[i].id) by {
                    assert(s2.finished@.contains(block.directives@[i].id));
                }
            }
        }
        if any_defer {
            Err(DeferError)
        } else {
            verifier.set_block_phase(block, VerifierPhase::Finished);
            Ok(())
        }
    }

    /// Verifies the expression of a `use namespace` directive, which must
    /// be a namespace constant; a sequence gives several.
    fn verify_use_ns_ns(verifier: &mut Subverifier, exp: &Expression) -> (r: Result<(), DeferError>)
        requires
            old(verifier).scope is Some,
        ensures
            final(verifier).step(*old(verifier)),
            r is Ok && !(exp.kind is Sequence) && !old(verifier).host.node_mapping@.contains_key(exp.id)
                ==> (final(verifier).value_of(exp.id) matches Some(v) && !(v is NamespaceConstant)
                    ==> final(verifier).spec_has_error_at(exp.location)),
            use_ns_settled(*old(verifier), *exp) ==> r is Ok,
        decreases exp, 5nat,
    {
        let ghost start = *verifier;
        if let ExpressionKind::Sequence { left, right } = &exp.kind {
            proof { assert(decreases_to!(*exp => exp.kind)); }
            Self::verify_use_ns_ns(verifier, left)?;
            let ghost s1 = *verifier;
            proof { if use_ns_settled(start, *exp) { lemma_use_ns_settled_stable(start, s1, **right); } }
            let v = Self::verify_use_ns_ns(verifier, right);
            proof { lemma_step_trans(start, s1, *verifier); }
            return v;
        }
        let cval = match verifier.verify_expression(exp, &default_context())? {
            None => return Ok(()),
            Some(c) => c,
        };
        if !matches!(cval, Entity::NamespaceConstant { .. }) {
            let ghost s1 = *verifier;
            verifier.add_verify_error(&exp.location, DiagnosticKind::NotANamespaceConstant);
            proof { lemma_step_trans(start, s1, *verifier); lemma_results_stable(s1, *verifier); }
        }
        Ok(())
    }
}

impl DirectiveSubverifier {
    /// Verifies a directive. Statements are verified for the directives
    /// nested in them; a directive with phases is verified once, and a
    /// finished one is left as it is.
    #[verifier::spinoff_prover]
    pub fn verify_directive(verifier: &mut Subverifier, drtv: &Directive) -> (r: Result<(), DeferError>)
        requires
            old(verifier).scope is Some,
        ensures
            final(verifier).step(*old(verifier)),
            is_phased(drtv.kind) && is_finished(*old(verifier), drtv.id) ==> *final(verifier) == *old(verifier) && r is Ok,
            r is Ok && is_phased(drtv.kind) && !(drtv.kind is Configuration) ==> is_finished(*final(verifier), drtv.id),
            finished_ok(*old(verifier)) && r is Ok && is_phased(drtv.kind) && !(drtv.kind is Configuration)
                ==> final(verifier).finished@.contains(drtv.id),
            drtv.kind is Import && old(verifier).phase_of_drtv@.get(drtv.id) == Some(VerifierPhase::Beta) && drtv.kind->Import_alias is None
                ==> r is Ok && import_checked(*old(verifier), *final(verifier), *drtv),
            drtv.kind is UseNamespace && !old(verifier).phase_of_drtv@.contains_key(drtv.id)
                ==> r is Err && final(verifier).phase_of_drtv@[drtv.id] == VerifierPhase::Beta,
            drtv.kind is UseNamespace && old(verifier).phase_of_drtv@.get(drtv.id) == Some(VerifierPhase::Beta)
                && use_ns_settled(*old(verifier), *drtv.kind->UseNamespace_expression) ==> r is Ok && is_finished(*final(verifier), drtv.id),
            drtv.kind is FunctionDefinition && !old(verifier).phase_of_drtv@.contains_key(drtv.id)
                && !old(verifier).host.node_mapping@.contains_key(drtv.id)
                && no_expression_attributes(drtv.kind->FunctionDefinition_attributes@)
                ==> crate::function_definition::spec_defined_or_finished(*final(verifier), *drtv, r),
            drtv.kind is FunctionDefinition && !old(verifier).phase_of_drtv@.contains_key(drtv.id)
                && drtv.kind->FunctionDefinition_attributes@.len() == 0
                && drtv.kind->FunctionDefinition_name_kind != crate::ast::FunctionNameKind::Constructor
                && !old(verifier).host.node_mapping@.contains_key(drtv.id)
                ==> crate::function_definition::spec_alpha_outcome(*old(verifier), *final(verifier), *drtv, r),
            drtv.kind is FunctionDefinition && crate::function_definition::phase_is(*old(verifier), drtv.id, VerifierPhase::Delta)
                ==> r is Err && crate::function_definition::phase_is(*final(verifier), drtv.id, VerifierPhase::Omega),
            drtv.kind is FunctionDefinition && crate::function_definition::phase_is(*old(verifier), drtv.id, VerifierPhase::Omega)
                && crate::function_common::body_settled(*old(verifier), drtv.kind->FunctionDefinition_common.body)
                ==> r is Ok && is_finished(*final(verifier), drtv.id),
            drtv.kind is VariableDefinition && !old(verifier).phase_of_drtv@.contains_key(drtv.id)
                && no_expression_attributes(drtv.kind->VariableDefinition_attributes@) ==> {
                ||| r is Ok && is_finished(*final(verifier), drtv.id)
                ||| r is Err && final(verifier).phase_of_drtv@.get(drtv.id) == Some(VerifierPhase::Beta)
            },
        decreases drtv, 3nat,
    {
        let ghost start = *verifier;
        proof { assert(decreases_to!(*drtv => drtv.kind)); }
        match &drtv.kind {
            DirectiveKind::VariableDefinition { .. } => Self::verify_var_defn(verifier, drtv),
            DirectiveKind::FunctionDefinition { .. } => Self::verify_fn_defn(verifier, drtv),
            DirectiveKind::Block { block } => {
                let phase = verifier.lazy_init_drtv_phase(drtv, VerifierPhase::Alpha);
                if phase == VerifierPhase::Finished {
                    return Ok(());
                }
                let ghost s0 = *verifier;
                let saved = verifier.scope;
                let scope = verifier.scope_for_node(drtv.id);
                verifier.inherit_and_enter_scope(scope);
                let ghost s1 = *verifier;
                let any_defer = Self::verify_directives(verifier, &block.directives).is_err();
                let ghost s2 = *verifier;
                verifier.exit_scope();
                verifier.scope = saved;
                proof { lemma_scoped_step(s0, s1, s2, *verifier); lemma_step_trans(start, s0, *verifier); }
                if any_defer {
                    Err(DeferError)
                } else {
                    verifier.set_drtv_phase(drtv, VerifierPhase::Finished);
                    Ok(())
                }
            },
            DirectiveKind::Labeled { substatement } => Self::verify_directive(verifier, substatement),
            DirectiveKind::If { consequent, alternative, .. } => {
                let mut any_defer = Self::verify_directive(verifier, consequent).is_err();
                if let Some(alt) = alternative {
                    let ghost s1 = *verifier;
                    proof { assert(decreases_to!(drtv.kind => drtv.kind->If_alternative)); }
                    let r = Self::verify_directive(verifier, alt).is_err();
                    proof { lemma_step_trans(start, s1, *verifier); }
                    any_defer = any_defer || r;
                }
                if any_defer { Err(DeferError) } else { Ok(()) }
            },
            DirectiveKind::Switch { cases } => {
                let mut any_defer = false;
                let mut i: usize = 0;
                while i < cases.len()
                    invariant
                        i <= cases@.len(),
                        drtv.kind is Switch,
                        drtv.kind->Switch_cases == *cases,
                        start == *old(verifier),
                        verifier.step(start),
                        verifier.scope is Some,
                    decreases cases@.len() - i,
                {
                    let ghost before = *verifier;
                    proof {
                        assert(decreases_to!(*drtv => drtv.kind));
                        assert(decreases_to!(drtv.kind => drtv.kind->Switch_cases));
                        assert(decreases_to!(*cases => cases@));
                        assert(decreases_to!(cases@ => cases@[i as int]));
                    }
                    let r = Self::verify_directives(verifier, &cases[i]).is_err();
                    proof { lemma_step_trans(start, before, *verifier); }
                    any_defer = any_defer || r;
                    i = i + 1;
                }
                if any_defer { Err(DeferError) } else { Ok(()) }
            },
            DirectiveKind::SwitchType { cases } => {
                let mut any_defer = false;
                let mut i: usize = 0;
                while i < cases.len()
                    invariant
                        i <= cases@.len(),
                        drtv.kind is SwitchType,
                        drtv.kind->SwitchType_cases == *cases,
                        start == *old(verifier),
                        verifier.step(start),
                        verifier.scope is Some,
                    decreases cases@.len() - i,
                {
                    let ghost before = *verifier;
                    proof {
                        assert(decreases_to!(*drtv => drtv.kind));
                        assert(decreases_to!(drtv.kind => drtv.kind->SwitchType_cases));
                        assert(decreases_to!(*cases => cases@));
                        assert(decreases_to!(cases@ => cases@[i as int]));
                    }
                    let r = Self::verify_block(verifier, &cases[i]).is_err();
                    proof { lemma_step_trans(start, before, *verifier); }
                    any_defer = any_defer || r;
                    i = i + 1;
                }
                if any_defer { Err(DeferError) } else { Ok(()) }
            },
            DirectiveKind::Do { body } | DirectiveKind::While { body } | DirectiveKind::With { body } =>
                Self::verify_directive(verifier, body),
            DirectiveKind::For { body } | DirectiveKind::ForIn { body } => {
                let saved = verifier.scope;
                let scope = verifier.scope_for_node(drtv.id);
                verifier.inherit_and_enter_scope(scope);
                let ghost s1 = *verifier;
                let r = Self::verify_directive(verifier, body);
                let ghost s2 = *verifier;
                verifier.exit_scope();
                verifier.scope = saved;
                proof { lemma_scoped_step(start, s1, s2, *verifier); }
                r
            },
            DirectiveKind::Try { block, catch_blocks, finally_block } => {
                let mut any_defer = Self::verify_block(verifier, block).is_err();
                let mut i: usize = 0;
                while i < catch_blocks.len()
                    invariant
                        i <= catch_blocks@.len(),
                        drtv.kind is Try,
                        drtv.kind->Try_catch_blocks == *catch_blocks,
                        start == *old(verifier),
                        verifier.step(start),
                        verifier.scope is Some,
                    decreases catch_blocks@.len() - i,
                {
                    let ghost before = *verifier;
                    proof {
                        assert(decreases_to!(*drtv => drtv.kind));
                        assert(decreases_to!(drtv.kind => drtv.kind->Try_catch_blocks));
                        assert(decreases_to!(*catch_blocks => catch_blocks@));
                        assert(decreases_to!(catch_blocks@ => catch_blocks@[i as int]));
                    }
                    let r = Self::verify_block(verifier, &catch_blocks[i]).is_err();
                    proof { lemma_step_trans(start, before, *verifier); }
                    any_defer = any_defer || r;
                    i = i + 1;
                }
                if let Some(fb) = finally_block {
                    let ghost before = *verifier;
                    proof { assert(decreases_to!(drtv.kind => drtv.kind->Try_finally_block)); }
                    let r = Self::verify_block(verifier, fb).is_err();
                    proof { lemma_step_trans(start, before, *verifier); }
                    any_defer = any_defer || r;
                }
                if any_defer { Err(DeferError) } else { Ok(()) }
            },
            DirectiveKind::Import { .. } => Self::verify_import_directive(verifier, drtv),
            DirectiveKind::PackageConcat { .. } => Self::verify_package_concat_drtv(verifier, drtv),
            DirectiveKind::UseNamespace { expression } => {
                let phase = verifier.lazy_init_drtv_phase(drtv, VerifierPhase::Alpha);
                if phase == VerifierPhase::Finished {
                    return Ok(());
                }
                if phase == VerifierPhase::Alpha {
                    verifier.set_drtv_phase(drtv, VerifierPhase::Beta);
                    return Err(DeferError);
                }
                let ghost s1 = *verifier;
                let v = Self::verify_use_ns_ns(verifier, expression);
                proof { lemma_step_trans(start, s1, *verifier); }
                v?;
                verifier.set_drtv_phase(drtv, VerifierPhase::Finished);
                Ok(())
            },
            DirectiveKind::Include { nested_directives, .. } | DirectiveKind::Injection { directives: nested_directives } => {
                if nested_directives.len() == 0 && matches!(drtv.kind, DirectiveKind::Include { .. }) {
                    return Ok(());
                }
                let phase = verifier.lazy_init_drtv_phase(drtv, VerifierPhase::Alpha);
                if phase == VerifierPhase::Finished {
                    return Ok(());
                }
                let ghost s1 = *verifier;
                let r = Self::verify_directives(verifier, nested_directives);
                proof { lemma_step_trans(start, s1, *verifier); }
                if r.is_err() {
                    Err(DeferError)
                } else {
                    verifier.set_drtv_phase(drtv, VerifierPhase::Finished);
                    Ok(())
                }
            },
            DirectiveKind::Configuration { .. } => Self::verify_config_drtv(verifier, drtv),
            _ => Ok(()),
        }
    }

    /// Verifies a configuration directive `NS::NAME { ... }`: the
    /// configuration constant must be a Boolean, and the directive is
    /// verified only when it is `true`.
    fn verify_config_drtv(verifier: &mut Subverifier, drtv: &Directive) -> (r: Result<(), DeferError>)
        requires
            old(verifier).scope is Some,
            drtv.kind is Configuration,
        ensures
            final(verifier).step(*old(verifier)),
            is_finished(*old(verifier), drtv.id) ==> *final(verifier) == *old(verifier) && r is Ok,
            !is_finished(*old(verifier), drtv.id) ==> final(verifier).is_verified(drtv.id),
            !is_finished(*old(verifier), drtv.id) && !config_enabled(*final(verifier), drtv.id)
                ==> r is Ok && is_finished(*final(verifier), drtv.id),
        decreases drtv, 0nat,
    {
        let ghost start = *verifier;
        let phase = verifier.lazy_init_drtv_phase(drtv, VerifierPhase::Alpha);
        if phase == VerifierPhase::Finished {
            return Ok(());
        }
        let (ns, cn, loc, inner) = match &drtv.kind {
            DirectiveKind::Configuration { namespace, constant_name, name_location, directive } =>
                (namespace, constant_name, *name_location, directive),
            _ => { proof { assert(false); } return Ok(()); },
        };
        let ghost s1 = *verifier;
        let cval = if verifier.host.node_mapping.contains_key(&drtv.id) {
            match verifier.host.node_mapping.get(&drtv.id).unwrap() {
                Some(v) => v.clone(),
                None => Entity::Invalidation,
            }
        } else {
            let mut name = ns.clone();
            name.append("::");
            name.append(cn.as_str());
            let v = match find_key(&verifier.host.config_constants, &name) {
                Some(i) => {
                    let cdata = verifier.host.config_constants[i].1.clone();
                    match ExpSubverifier::eval_config_constant(verifier, &loc, name, cdata) {
                        Some(Entity::BooleanConstant { value, ty }) => Entity::BooleanConstant { value, ty },
                        Some(Entity::Invalidation) | None => Entity::Invalidation,
                        Some(_) => {
                            verifier.add_verify_error(&loc, DiagnosticKind::NotABooleanConstant);
                            Entity::Invalidation
                        },
                    }
                },
                None => {
                    verifier.add_verify_error(&loc, DiagnosticKind::CannotResolveConfigConstant);
                    Entity::Invalidation
                },
            };
            let ghost s2 = *verifier;
            verifier.map_node(drtv.id, Some(v.clone()));
            proof { lemma_step_trans(s1, s2, *verifier); }
            v
        };
        proof {
            lemma_step_trans(start, s1, *verifier);
            assert(verifier.is_verified(drtv.id));
            assert(config_enabled(*verifier, drtv.id) == (cval matches Entity::BooleanConstant { value: true, .. }));
        }
        let enabled = match cval {
            Entity::BooleanConstant { value, .. } => value,
            _ => false,
        };
        if !enabled {
            verifier.set_drtv_phase(drtv, VerifierPhase::Finished);
            return Ok(());
        }
        let ghost s3 = *verifier;
        proof { assert(decreases_to!(*drtv => drtv.kind)); }
        let r = match &inner.kind {
            DirectiveKind::Block { block } => {
                proof { assert(decreases_to!(inner.kind => inner.kind->Block_block)); }
                Self::verify_directives(verifier, &block.directives)
            },
            _ => Self::verify_directive(verifier, inner),
        };
        proof {
            lemma_step_trans(start, s3, *verifier);
            assert(s3.is_verified(drtv.id));
        }
        r
    }
}

/// The namespace expressions of a `use namespace` directive have been
/// verified in `v`: each of a sequence, or the expression itself.
pub open spec fn use_ns_settled(v: Subverifier, exp: Expression) -> bool
    decreases exp,
{
    match exp.kind {
        ExpressionKind::Sequence { left, right } => use_ns_settled(v, *left) && use_ns_settled(v, *right),
        _ => v.is_verified(exp.id),
    }
}

/// What is settled of a `use namespace` expression stays so as
/// verification goes on.
proof fn lemma_use_ns_settled_stable(a: Subverifier, b: Subverifier, exp: Expression)
    requires
        use_ns_settled(a, exp),
        b.progress(a),
    ensures
        use_ns_settled(b, exp),
    decreases exp,
{
    if let ExpressionKind::Sequence { left, right } = exp.kind {
        lemma_use_ns_settled_stable(a, b, *left);
        lemma_use_ns_settled_stable(a, b, *right);
    }
}

/// The type annotation and the initializer of a binding, where it has
/// them, have been verified in `v`.
pub open spec fn binding_operands_verified(v: Subverifier, b: VariableBinding) -> bool {
    &&& match b.type_annotation {
        Some(a) => v.is_verified(a.id),
        None => true,
    }
    &&& match b.initializer {
        Some(e) => v.is_verified(e.id),
        None => true,
    }
}

/// Every binding of `bs` has its annotation and initializer verified in `v`.
pub open spec fn bindings_operands_verified(v: Subverifier, bs: Seq<VariableBinding>) -> bool {
    forall|i: int| 0 <= i < bs.len() ==> binding_operands_verified(v, #[trigger] bs[i])
}

/// Whether the type annotation of a plain binding has been verified in `v`.
pub open spec fn binding_annotation_verified(v: Subverifier, b: VariableBinding) -> bool {
    is_simple_binding(b) ==> match b.type_annotation {
        Some(a) => v.is_verified(a.id),
        None => true,
    }
}

/// What is verified of the bindings stays verified as verification goes on.
proof fn lemma_bindings_operands_stable(a: Subverifier, b: Subverifier, bs: Seq<VariableBinding>)
    requires
        bindings_operands_verified(a, bs),
        b.progress(a),
    ensures
        bindings_operands_verified(b, bs),
{
    assert forall|i: int| 0 <= i < bs.len() implies binding_operands_verified(b, #[trigger] bs[i]) by {
        assert(binding_operands_verified(a, bs[i]));
        if let Some(x) = bs[i].type_annotation { assert(a.is_verified(x.id)); }
        if let Some(x) = bs[i].initializer { assert(a.is_verified(x.id)); }
    }
}

/// Whether the configuration constant of the directive `id` was found to
/// be `true`, which enables the directive's contents.
pub open spec fn config_enabled(v: Subverifier, id: u64) -> bool {
    match v.host.node_mapping@[id] {
        Some(Entity::BooleanConstant { value, .. }) => value,
        _ => false,
    }
}

/// Whether no attribute is an expression, whose verification could defer.
pub open spec fn no_expression_attributes(attributes: Seq<Attribute>) -> bool {
    forall|i: int| 0 <= i < attributes.len() ==> !(#[trigger] attributes[i] is Expression)
}

/// Whether a package, or one whose name it prefixes, has properties.
pub open spec fn package_tree_has_properties(db: Database, names: Seq<String>) -> bool {
    exists|p: int| 0 <= p < db.packages@.len() && #[trigger] db.packages@[p].properties@.len() > 0
        && db.packages@[p].name@.len() >= names.len()
        && forall|i: int| 0 <= i < names.len() ==> (#[trigger] db.packages@[p].name@[i])@ == names[i]@
}

/// The diagnostic that the second phase of an import of `specifier` from the
/// package `names`, found at index `p` of the database, reports: an import
/// of a property the package does not have, or of an empty package.
pub open spec fn spec_import_error(db: Database, p: int, names: Seq<String>, specifier: ImportSpecifier) -> Option<DiagnosticKind> {
    match specifier {
        ImportSpecifier::Identifier(n, _) =>
            if crate::resolution::spec_find_property(db.packages@[p].properties@, n@) is None { Some(DiagnosticKind::ImportOfUndefined) } else { None },
        ImportSpecifier::Wildcard =>
            if db.packages@[p].properties@.len() == 0 { Some(DiagnosticKind::EmptyPackage) } else { None },
        ImportSpecifier::Recursive =>
            if !package_tree_has_properties(db, names) { Some(DiagnosticKind::EmptyPackage) } else { None },
    }
}

/// What the second phase of an import reported: the diagnostic of
/// `spec_import_error` at the package name's location (an empty package is
/// a warning, an undefined property an error), or nothing.
pub open spec fn import_checked(old: Subverifier, new: Subverifier, drtv: Directive) -> bool {
    exists|p: int| 0 <= p < new.host.packages@.len()
        && package_name_is(#[trigger] new.host.packages@[p].name@, drtv.kind->Import_package_name@)
        && new.reports@ == match spec_import_error(new.host, p, drtv.kind->Import_package_name@, drtv.kind->Import_specifier) {
            Some(k) => old.reports@.push(Diagnostic { location: drtv.kind->Import_package_location, kind: k,
                is_warning: k == DiagnosticKind::EmptyPackage, is_syntax_error: false }),
            None => old.reports@,
        }
}

/// Whether the attributes hold the meta-data `name`.
pub open spec fn has_metadata(attributes: Seq<Attribute>, name: Seq<char>) -> bool {
    exists|i: int| 0 <= i < attributes.len() && (#[trigger] attributes[i] matches Attribute::Metadata(m) && m@ == name)
}

pub(crate) fn metadata_present(attributes: &Vec<Attribute>, name: &str) -> (r: bool)
    ensures
        r == has_metadata(attributes@, name@),
{
    let mut i: usize = 0;
    while i < attributes.len()
        invariant
            i <= attributes@.len(),
            forall|j: int| 0 <= j < i ==> !(#[trigger] attributes@[j] matches Attribute::Metadata(m) && m@ == name@),
        decreases attributes@.len() - i,
    {
        if let Attribute::Metadata(m) = &attributes[i] {
            if m.as_str().unicode_len() == name.unicode_len() && str_equal(m.as_str(), name) {
                return true;
            }
        }
        i = i + 1;
    }
    false
}

/// Whether two strings are equal.
fn str_equal(a: &str, b: &str) -> (r: bool)
    ensures
        r == (a@ == b@),
{
    let n = a.unicode_len();
    if n != b.unicode_len() {
        return false;
    }
    let mut i: usize = 0;
    while i < n
        invariant
            i <= n,
            n == a@.len(),
            n == b@.len(),
            forall|j: int| 0 <= j < i ==> a@[j] == b@[j],
        decreases n - i,
    {
        if a.get_char(i) != b.get_char(i) {
            return false;
        }
        i = i + 1;
    }
    proof { assert(a@ =~= b@); }
    true
}

pub(crate) fn has_static_attribute(attributes: &Vec<Attribute>) -> (r: bool)
    ensures
        r == exists|i: int| 0 <= i < attributes@.len() && #[trigger] attributes@[i] is Static,
{
    let mut i: usize = 0;
    while i < attributes.len()
        invariant
            i <= attributes@.len(),
            forall|j: int| 0 <= j < i ==> !(#[trigger] attributes@[j] is Static),
        decreases attributes@.len() - i,
    {
        if let Attribute::Static(_) = &attributes[i] {
            return true;
        }
        i = i + 1;
    }
    false
}

/// Where a binding's variable is: the scope and the index of the property
/// that the binding's pattern node `id` is mapped to.
pub open spec fn spec_binding_slot(v: Subverifier, id: u64) -> Option<(usize, usize)> {
    if v.host.node_mapping@.contains_key(id) {
        match v.host.node_mapping@[id] {
            Some(Entity::PropertyReference { base: ReferenceBase::Scope { scope, index }, .. }) =>
                if scope < v.host.scopes@.len() { Some((scope, index)) } else { None },
            _ => None,
        }
    } else {
        None
    }
}

fn binding_slot(verifier: &Subverifier, pattern: &Expression) -> (r: Option<(usize, usize)>)
    ensures
        r == spec_binding_slot(*verifier, pattern.id),
        r matches Some((s, i)) ==> s < verifier.host.scopes@.len(),
{
    match verifier.host.node_mapping.get(&pattern.id) {
        Some(Some(Entity::PropertyReference { base: ReferenceBase::Scope { scope, index }, .. })) => {
            if *scope < verifier.host.scopes.len() { Some((*scope, *index)) } else { None }
        },
        _ => None,
    }
}

fn slot_type(verifier: &Subverifier, scope: usize, index: usize) -> (r: Option<Ty>)
    ensures
        r == spec_slot_type(verifier.host, scope, index),
{
    if scope < verifier.host.scopes.len() && index < verifier.host.scopes[scope].properties.len() {
        match &verifier.host.scopes[scope].properties[index].kind {
            PropertyKind::Variable { static_type, .. } => Some(static_type.clone()),
            _ => None,
        }
    } else {
        None
    }
}

/// Whether a binding declares a plain name rather than a destructuring pattern.
pub open spec fn is_simple_binding(b: VariableBinding) -> bool {
    b.pattern.kind is QualifiedIdentifier
}

/// Whether the scope `s` holds fixtures: the properties of a package or a class.
pub open spec fn is_fixture_scope(db: Database, s: usize) -> bool {
    s < db.scopes@.len() && (db.scopes@[s as int].kind is Package || db.scopes@[s as int].kind is Class)
}

impl DirectiveSubverifier {
    /// Verifies an import directive: in a first phase the import joins the
    /// imports of the hoisting scope; in a second, an import of an undefined
    /// property and an import of an empty package are reported.
    #[verifier::spinoff_prover]
    fn verify_import_directive(verifier: &mut Subverifier, drtv: &Directive) -> (r: Result<(), DeferError>)
        requires
            old(verifier).scope is Some,
            drtv.kind is Import,
        ensures
            final(verifier).step(*old(verifier)),
            is_finished(*old(verifier), drtv.id) ==> *final(verifier) == *old(verifier) && r is Ok,
            !old(verifier).phase_of_drtv@.contains_key(drtv.id) ==> r is Err
                && final(verifier).phase_of_drtv@[drtv.id] == VerifierPhase::Beta,
            r is Ok ==> is_finished(*final(verifier), drtv.id),
            old(verifier).phase_of_drtv@.get(drtv.id) == Some(VerifierPhase::Beta) && drtv.kind->Import_alias is None
                ==> r is Ok && import_checked(*old(verifier), *final(verifier), *drtv),
    {
        let ghost start = *verifier;
        let phase = verifier.lazy_init_drtv_phase(drtv, VerifierPhase::Alpha);
        if phase == VerifierPhase::Finished {
            return Ok(());
        }
        let (names, ploc, specifier, alias) = match &drtv.kind {
            DirectiveKind::Import { package_name, package_location, specifier, alias } => (package_name, *package_location, specifier, alias),
            _ => { proof { assert(false); } return Ok(()); },
        };
        if alias.is_some() {
            return Self::verify_import_alias_directive(verifier, drtv);
        }
        let ghost s0 = *verifier;
        if phase == VerifierPhase::Alpha {
            let p = verifier.host.package_or_create(names);
            let imp = match specifier {
                ImportSpecifier::Identifier(n, _) => Import::PackageProperty { package: p, name: n.clone() },
                ImportSpecifier::Wildcard => Import::PackageWildcard { package: p },
                ImportSpecifier::Recursive => Import::PackageRecursive { package: p },
            };
            if let Some(h) = verifier.search_hoist_scope() {
                verifier.host.add_import(h, imp);
            }
            verifier.set_drtv_phase(drtv, VerifierPhase::Beta);
            return Err(DeferError);
        }
        let p = verifier.host.package_or_create(names);
        let ghost s1 = *verifier;
        match specifier {
            ImportSpecifier::Identifier(n, _) => {
                if find_property(&verifier.host.packages[p].properties, n).is_none() {
                    verifier.add_verify_error(&ploc, DiagnosticKind::ImportOfUndefined);
                }
            },
            ImportSpecifier::Wildcard => {
                if verifier.host.packages[p].properties.len() == 0 {
                    verifier.add_warning(&ploc, DiagnosticKind::EmptyPackage);
                }
            },
            ImportSpecifier::Recursive => {
                if !Self::package_tree_nonempty(&verifier.host, names) {
                    verifier.add_warning(&ploc, DiagnosticKind::EmptyPackage);
                }
            },
        }
        proof {
            assert(verifier.host.packages@ == s1.host.packages@);
            assert(package_name_is(verifier.host.packages@[p as int].name@, drtv.kind->Import_package_name@));
        }
        verifier.set_drtv_phase(drtv, VerifierPhase::Finished);
        Ok(())
    }

    /// Whether a package whose name `names` prefixes has properties.
    pub(crate) fn package_tree_nonempty(db: &Database, names: &Vec<String>) -> (r: bool)
        ensures
            r == package_tree_has_properties(*db, names@),
    {
        let mut p: usize = 0;
        while p < db.packages.len()
            invariant
                p <= db.packages@.len(),
                forall|q: int| 0 <= q < p ==> !(#[trigger] db.packages@[q].properties@.len() > 0
                    && db.packages@[q].name@.len() >= names@.len()
                    && forall|i: int| 0 <= i < names@.len() ==> (#[trigger] db.packages@[q].name@[i])@ == names@[i]@),
            decreases db.packages@.len() - p,
        {
            let pk = &db.packages[p];
            if pk.properties.len() > 0 && pk.name.len() >= names.len() {
                let mut i: usize = 0;
                let mut same = true;
                while i < names.len()
                    invariant
                        i <= names@.len(),
                        pk.name@.len() >= names@.len(),
                        same <==> forall|j: int| 0 <= j < i ==> (#[trigger] pk.name@[j])@ == names@[j]@,
                    decreases names@.len() - i,
                {
                    if pk.name[i] != names[i] {
                        same = false;
                    }
                    i = i + 1;
                }
                if same {
                    return true;
                }
            }
            p = p + 1;
        }
        false
    }

    /// The scope where a definition with `attributes` goes: the hoisting
    /// scope for a static definition, the current scope otherwise. A
    /// namespace attribute that is not a namespace constant, and an access
    /// control attribute outside a class, are reported, and the definition
    /// is dropped.
    pub(crate) fn definition_local_maybe_static(verifier: &mut Subverifier, attributes: &Vec<Attribute>)
        -> (r: Result<Result<usize, ()>, DeferError>)
        requires
            old(verifier).scope is Some,
        ensures
            final(verifier).step(*old(verifier)),
            r matches Ok(Ok(s)) ==> s < final(verifier).host.scopes@.len(),
            no_expression_attributes(attributes@) ==> r is Ok && final(verifier).host.node_mapping == old(verifier).host.node_mapping
                && final(verifier).function_definition_partials == old(verifier).function_definition_partials,
            attributes@.len() == 0 ==> match old(verifier).scope {
                Some(s) => s < old(verifier).host.scopes@.len() ==> r == Ok::<Result<usize, ()>, DeferError>(Ok(s))
                    && *final(verifier) == *old(verifier),
                None => true,
            },
        decreases attributes, 0nat,
    {
        let ghost start = *verifier;
        let is_static = has_static_attribute(attributes);
        let var_scope = if is_static { verifier.search_hoist_scope() } else { verifier.scope };
        let var_scope = match var_scope {
            Some(s) => if s < verifier.host.scopes.len() { s } else { return Ok(Err(())) },
            None => return Ok(Err(())),
        };
        let in_class = matches!(verifier.host.scopes[var_scope].kind, ScopeKind::Class { .. });
        let mut k: usize = attributes.len();
        while k > 0
            invariant
                k <= attributes@.len(),
                start == *old(verifier),
                verifier.step(start),
                verifier.scope is Some,
                var_scope < verifier.host.scopes@.len(),
                no_expression_attributes(attributes@) ==> verifier.host.node_mapping == start.host.node_mapping
                    && verifier.function_definition_partials == start.function_definition_partials,
                attributes@.len() == 0 ==> *verifier == start,
            decreases k,
        {
            k = k - 1;
            let ghost before = *verifier;
            match &attributes[k] {
                Attribute::Expression(exp) => {
                    proof {
                        assert(decreases_to!(*attributes => attributes@));
                        assert(decreases_to!(attributes@ => attributes@[k as int]));
                    }
                    let nsconst = verifier.verify_expression(exp, &default_context());
                    proof { lemma_step_trans(start, before, *verifier); }
                    let nsconst = nsconst?;
                    let ghost s1 = *verifier;
                    match nsconst {
                        Some(Entity::NamespaceConstant { .. }) => {},
                        Some(_) => {
                            verifier.add_verify_error(&exp.location, DiagnosticKind::NotANamespaceConstant);
                            proof { lemma_step_trans(start, s1, *verifier); }
                            return Ok(Err(()));
                        },
                        None => return Ok(Err(())),
                    }
                    if !in_class {
                        verifier.add_verify_error(&exp.location, DiagnosticKind::AccessControlNamespaceNotAllowedHere);
                        proof { lemma_step_trans(start, s1, *verifier); }
                        return Ok(Err(()));
                    }
                    break;
                },
                Attribute::Private(loc) | Attribute::Protected(loc) => {
                    if !in_class {
                        verifier.add_verify_error(loc, DiagnosticKind::AccessControlNamespaceNotAllowedHere);
                        proof { lemma_step_trans(start, before, *verifier); }
                        return Ok(Err(()));
                    }
                    break;
                },
                Attribute::Public(_) | Attribute::Internal(_) => {
                    break;
                },
                _ => {},
            }
        }
        Ok(Ok(var_scope))
    }
}

/// What the last phase of a variable definition establishes of a binding:
/// its pattern node is mapped; a binding without a type annotation and
/// without an initializer is warned of; a constant without an initializer
/// (other than an embedded one) is an error; and the initializer of an
/// external variable that is not a compile-time constant is an error.
pub open spec fn binding_checked(v: Subverifier, b: VariableBinding, is_const: bool, is_external: bool, embed: bool) -> bool {
    &&& v.host.node_mapping@.contains_key(b.pattern.id)
    &&& (b.type_annotation is None && b.initializer is None ==> warning_at(v.host.diagnostics@, b.location.first_offset)
        && ever_warned(v, b.location, DiagnosticKind::VariableHasNoTypeAnnotation))
    &&& (is_const && b.initializer is None && !embed ==> error_at(v.host.diagnostics@, b.location.first_offset)
        && ever_reported(v, b.location, DiagnosticKind::ConstantMustContainInitializer))
    &&& (is_external && b.initializer is Some ==> {
        let e = b.initializer.unwrap();
        &&& v.host.node_mapping@.contains_key(e.id)
        &&& ((v.result_of(e.id) matches Some(x) && !x.is_constant()) ==> error_at(v.host.diagnostics@, e.location.first_offset)
            && ever_reported(v, e.location, DiagnosticKind::EntityIsNotAConstant))
    })
}

/// What a binding has established stays established by later steps.
pub proof fn lemma_binding_checked_preserved(a: Subverifier, b: Subverifier, binding: VariableBinding, is_const: bool,
    is_external: bool, embed: bool)
    requires
        b.progress(a),
        binding_checked(a, binding, is_const, is_external, embed),
    ensures
        binding_checked(b, binding, is_const, is_external, embed),
{
    lemma_results_stable(a, b);
    lemma_ever_reported_kept(a, b, binding.location, DiagnosticKind::VariableHasNoTypeAnnotation);
    lemma_ever_reported_kept(a, b, binding.location, DiagnosticKind::ConstantMustContainInitializer);
    if binding.initializer is Some {
        lemma_ever_reported_kept(a, b, binding.initializer.unwrap().location, DiagnosticKind::EntityIsNotAConstant);
    }
    if binding.type_annotation is None && binding.initializer is None {
        lemma_warning_at_preserved(a.host.diagnostics@, b.host.diagnostics@, binding.location.first_offset);
    }
    if is_const && binding.initializer is None && !embed {
        lemma_error_at_preserved(a.host.diagnostics@, b.host.diagnostics@, binding.location.first_offset);
    }
    if is_external && binding.initializer is Some {
        let e = binding.initializer.unwrap();
        if (a.result_of(e.id) matches Some(x)) && !a.result_of(e.id).unwrap().is_constant() {
            lemma_error_at_preserved(a.host.diagnostics@, b.host.diagnostics@, e.location.first_offset);
        }
    }
}

/// What resolving a binding's type annotation establishes: the variable
/// of a plain binding with an annotation that denotes a type has that type
/// (with `only_unresolved`, if its type was unresolved before).
pub open spec fn binding_type_resolved(old: Subverifier, new: Subverifier, b: VariableBinding, only_unresolved: bool) -> bool {
    match (b.type_annotation, spec_binding_slot(new, b.pattern.id)) {
        (Some(a), Some((s, i))) => match new.result_of(a.id) {
            Some(Entity::TypeReference { ty }) =>
                is_simple_binding(b) && spec_slot_type(new.host, s, i) is Some
                && (only_unresolved ==> spec_binding_slot(old, b.pattern.id) == Some((s, i))
                    && spec_slot_type(old.host, s, i) == Some(Ty::Unresolved))
                ==> spec_slot_type(new.host, s, i) == Some(ty),
            _ => true,
        },
        _ => true,
    }
}

/// Sets the static type of the variable at `index` of scope `scope`.
fn set_slot_type(verifier: &mut Subverifier, scope: usize, index: usize, t: Ty)
    requires
        scope < old(verifier).host.scopes@.len(),
    ensures
        final(verifier).step(*old(verifier)),
        final(verifier).host.node_mapping == old(verifier).host.node_mapping,
        final(verifier).host.diagnostics == old(verifier).host.diagnostics,
        final(verifier).phase_of_drtv == old(verifier).phase_of_drtv,
        spec_slot_type(old(verifier).host, scope, index) is Some ==> spec_slot_type(final(verifier).host, scope, index) == Some(t),
        spec_slot_type(old(verifier).host, scope, index) is Some ==> spec_slot_constant(final(verifier).host, scope, index)
            == spec_slot_constant(old(verifier).host, scope, index),
{
    let ghost start = *verifier;
    verifier.host.set_variable_type(scope, index, t);
    proof {
        assert forall|i: int| 0 <= i < start.host.scopes@.len() implies {
            &&& (#[trigger] verifier.host.scopes@[i]).kind == start.host.scopes@[i].kind
            &&& start.host.scopes@[i].parent is Some ==> verifier.host.scopes@[i].parent == start.host.scopes@[i].parent
        } by {
            if i != scope {
                assert(verifier.host.scopes@[i] == start.host.scopes@[i]);
            }
        }
    }
}

/// Sets the constant value of the variable at `index` of scope `scope`.
fn set_slot_constant(verifier: &mut Subverifier, scope: usize, index: usize, c: crate::semantics::ConstantValue)
    requires
        scope < old(verifier).host.scopes@.len(),
    ensures
        final(verifier).step(*old(verifier)),
        final(verifier).host.node_mapping == old(verifier).host.node_mapping,
        final(verifier).host.diagnostics == old(verifier).host.diagnostics,
        final(verifier).phase_of_drtv == old(verifier).phase_of_drtv,
        spec_slot_type(final(verifier).host, scope, index) == spec_slot_type(old(verifier).host, scope, index),
        spec_slot_type(old(verifier).host, scope, index) is Some ==> spec_slot_constant(final(verifier).host, scope, index) == Some(c),
{
    let ghost start = *verifier;
    verifier.host.set_variable_constant(scope, index, Some(c));
    proof {
        assert forall|i: int| 0 <= i < start.host.scopes@.len() implies {
            &&& (#[trigger] verifier.host.scopes@[i]).kind == start.host.scopes@[i].kind
            &&& start.host.scopes@[i].parent is Some ==> verifier.host.scopes@[i].parent == start.host.scopes@[i].parent
        } by {
            if i != scope {
                assert(verifier.host.scopes@[i] == start.host.scopes@[i]);
            }
        }
    }
}

impl DirectiveSubverifier {
    /// Completes a binding with its initial value `init`: the variable of a
    /// plain name whose type is still unresolved takes the type of `init`,
    /// and a constant whose initial value is a compile-time constant takes
    /// that value; an undeclared binding is declared with `init`.
    fn complete_binding(verifier: &mut Subverifier, scope: usize, pattern: &Expression, init: &Entity, is_const: bool)
        requires
            scope < old(verifier).host.scopes@.len(),
        ensures
            final(verifier).step(*old(verifier)),
            final(verifier).host.node_mapping@.contains_key(pattern.id),
            match spec_binding_slot(*old(verifier), pattern.id) {
                Some((s, i)) => {
                    &&& spec_slot_type(old(verifier).host, s, i) == Some(Ty::Unresolved)
                        ==> spec_slot_type(final(verifier).host, s, i) == Some(init.spec_static_type())
                    &&& (spec_slot_type(old(verifier).host, s, i) is Some && spec_slot_type(old(verifier).host, s, i) != Some(Ty::Unresolved))
                        ==> spec_slot_type(final(verifier).host, s, i) == spec_slot_type(old(verifier).host, s, i)
                    &&& is_const && init.spec_constant_value() is Some && spec_slot_type(old(verifier).host, s, i) is Some
                        ==> spec_slot_constant(final(verifier).host, s, i) == init.spec_constant_value()
                },
                None => true,
            },
    {
        let ghost start = *verifier;
        match binding_slot(verifier, pattern) {
            Some((s, i)) => {
                if let Some(t) = slot_type(verifier, s, i) {
                    if t.is(Ty::Unresolved) {
                        set_slot_type(verifier, s, i, init.static_type());
                    }
                    let ghost s1 = *verifier;
                    if is_const {
                        if let Some(c) = init.constant_value() {
                            set_slot_constant(verifier, s, i, c);
                            proof { lemma_step_trans(start, s1, *verifier); }
                        }
                    }
                }
            },
            None => {
                FunctionCommonSubverifier::declare_pattern(verifier, scope, pattern, init, is_const);
            },
        }
    }

    /// Declares the bindings of a variable definition in `scope` with
    /// unresolved types. A destructuring pattern is not allowed where the
    /// variables are fixtures or external; it is reported and its node
    /// mapped to nothing.
    fn declare_bindings(verifier: &mut Subverifier, scope: usize, bindings: &Vec<VariableBinding>, is_const: bool, is_external: bool)
        requires
            scope < old(verifier).host.scopes@.len(),
        ensures
            final(verifier).step(*old(verifier)),
            forall|i: int| 0 <= i < bindings@.len() ==> final(verifier).host.node_mapping@.contains_key((#[trigger] bindings@[i]).pattern.id),
            forall|i: int| 0 <= i < bindings@.len() && !is_simple_binding(#[trigger] bindings@[i])
                && (is_fixture_scope(old(verifier).host, scope) || is_external)
                ==> error_at(final(verifier).host.diagnostics@, bindings@[i].location.first_offset),
    {
        let ghost start = *verifier;
        let fixture = matches!(verifier.host.scopes[scope].kind, ScopeKind::Package { .. } | ScopeKind::Class { .. });
        let mut k: usize = 0;
        while k < bindings.len()
            invariant
                k <= bindings@.len(),
                start == *old(verifier),
                verifier.step(start),
                scope < verifier.host.scopes@.len(),
                fixture == is_fixture_scope(start.host, scope),
                forall|i: int| 0 <= i < k ==> verifier.host.node_mapping@.contains_key((#[trigger] bindings@[i]).pattern.id),
                forall|i: int| 0 <= i < k && !is_simple_binding(#[trigger] bindings@[i]) && (fixture || is_external)
                    ==> error_at(verifier.host.diagnostics@, bindings@[i].location.first_offset),
            decreases bindings@.len() - k,
        {
            let ghost before = *verifier;
            let b = &bindings[k];
            let simple = matches!(b.pattern.kind, ExpressionKind::QualifiedIdentifier(_));
            if !simple && (fixture || is_external) {
                verifier.add_verify_error(&b.location, DiagnosticKind::CannotUseDestructuringHere);
                let ghost mid = *verifier;
                verifier.map_node(b.pattern.id, None);
                proof { lemma_step_trans(before, mid, *verifier); }
            } else {
                FunctionCommonSubverifier::declare_pattern(verifier, scope, &b.pattern, &Entity::Unresolved, is_const);
            }
            proof {
                lemma_step_trans(start, before, *verifier);
                assert forall|i: int| 0 <= i < k + 1 && !is_simple_binding(#[trigger] bindings@[i]) && (fixture || is_external)
                    implies error_at(verifier.host.diagnostics@, bindings@[i].location.first_offset) by {
                    if i < k {
                        lemma_error_at_preserved(before.host.diagnostics@, verifier.host.diagnostics@, bindings@[i].location.first_offset);
                    }
                }
            }
            k = k + 1;
        }
    }

    /// Sets the declared type of a plain binding from its type annotation;
    /// with `only_unresolved`, only while the variable's type is unresolved.
    fn resolve_binding_type(verifier: &mut Subverifier, binding: &VariableBinding, only_unresolved: bool) -> (r: Result<(), DeferError>)
        requires
            old(verifier).scope is Some,
        ensures
            final(verifier).step(*old(verifier)),
            !is_simple_binding(*binding) || binding.type_annotation is None ==> *final(verifier) == *old(verifier),
            r is Ok ==> binding_type_resolved(*old(verifier), *final(verifier), *binding, only_unresolved),
            r is Ok && !only_unresolved ==> binding_annotation_verified(*final(verifier), *binding),
            binding_operands_verified(*old(verifier), *binding) ==> r is Ok,
        decreases binding, 0nat,
    {
        if !matches!(binding.pattern.kind, ExpressionKind::QualifiedIdentifier(_)) {
            return Ok(());
        }
        let annot = match &binding.type_annotation {
            Some(a) => a,
            None => return Ok(()),
        };
        let ghost start = *verifier;
        if only_unresolved {
            let unresolved = match binding_slot(verifier, &binding.pattern) {
                Some((s, i)) => match slot_type(verifier, s, i) {
                    Some(t) => t.is(Ty::Unresolved),
                    None => false,
                },
                None => false,
            };
            if !unresolved {
                return Ok(());
            }
        }
        proof {
            assert(decreases_to!(*binding => binding.type_annotation));
            assert(decreases_to!(binding.type_annotation => binding.type_annotation->0));
        }
        let t = verifier.verify_type_expression(annot)?;
        let t = match t {
            Some(t) => t,
            None => return Ok(()),
        };
        let ghost mid = *verifier;
        if let Some((s, i)) = binding_slot(verifier, &binding.pattern) {
            if slot_type(verifier, s, i).is_some() {
                set_slot_type(verifier, s, i, t);
                proof { lemma_step_trans(start, mid, *verifier); }
            }
        }
        Ok(())
    }

    /// Resolves the declared types of the plain bindings of a list.
    fn resolve_binding_types(verifier: &mut Subverifier, bindings: &Vec<VariableBinding>, only_unresolved: bool) -> (r: Result<(), DeferError>)
        requires
            old(verifier).scope is Some,
        ensures
            final(verifier).step(*old(verifier)),
            r is Ok && !only_unresolved ==> forall|i: int| 0 <= i < bindings@.len()
                ==> binding_annotation_verified(*final(verifier), #[trigger] bindings@[i]),
            bindings_operands_verified(*old(verifier), bindings@) ==> r is Ok,
        decreases bindings, 0nat,
    {
        let ghost start = *verifier;
        let mut k: usize = 0;
        while k < bindings.len()
            invariant
                k <= bindings@.len(),
                start == *old(verifier),
                verifier.step(start),
                verifier.scope is Some,
                !only_unresolved ==> forall|i: int| 0 <= i < k ==> binding_annotation_verified(*verifier, #[trigger] bindings@[i]),
                bindings_operands_verified(start, bindings@) ==> bindings_operands_verified(*verifier, bindings@),
            decreases bindings@.len() - k,
        {
            let ghost before = *verifier;
            proof {
                assert(decreases_to!(*bindings => bindings@));
                assert(decreases_to!(bindings@ => bindings@[k as int]));
            }
            let r = Self::resolve_binding_type(verifier, &bindings[k], only_unresolved);
            proof {
                lemma_step_trans(start, before, *verifier);
                if bindings_operands_verified(start, bindings@) {
                    assert(binding_operands_verified(before, bindings@[k as int]));
                    lemma_bindings_operands_stable(before, *verifier, bindings@);
                }
            }
            r?;
            proof {
                if !only_unresolved {
                    assert forall|i: int| 0 <= i < k + 1 implies binding_annotation_verified(*verifier, #[trigger] bindings@[i]) by {
                        if i < k {
                            assert(binding_annotation_verified(before, bindings@[i]));
                            if let Some(a) = bindings@[i].type_annotation { assert(before.is_verified(a.id) ==> verifier.is_verified(a.id)); }
                        }
                    }
                }
            }
            k = k + 1;
        }
        Ok(())
    }

    /// The last phase of a binding: verifies its type annotation and its
    /// initializer, coerced to the annotated type, and completes the binding
    /// with the initializer's value, or with a value of the annotated type
    /// (of `*` without annotation) when there is none.
    #[verifier::spinoff_prover]
    fn verify_binding_omega(verifier: &mut Subverifier, scope: usize, binding: &VariableBinding, is_const: bool,
        is_external: bool, embed: bool) -> (r: Result<(), DeferError>)
        requires
            old(verifier).scope is Some,
            scope < old(verifier).host.scopes@.len(),
        ensures
            final(verifier).step(*old(verifier)),
            r is Ok ==> binding_checked(*final(verifier), *binding, is_const, is_external, embed),
            binding_operands_verified(*old(verifier), *binding) ==> r is Ok,
        decreases binding, 0nat,
    {
        let ghost start = *verifier;
        proof {
            assert(decreases_to!(*binding => binding.type_annotation));
            assert(decreases_to!(*binding => binding.initializer));
        }
        let annotation_type = match &binding.type_annotation {
            Some(a) => {
                proof { assert(decreases_to!(binding.type_annotation => binding.type_annotation->0)); }
                verifier.verify_type_expression(a)?
            },
            None => None,
        };
        let ghost s1 = *verifier;
        let init: Option<Entity> = match &binding.initializer {
            Some(e) => {
                proof { assert(decreases_to!(binding.initializer => binding.initializer->0)); }
                match &annotation_type {
                    Some(t) => verifier.imp_coerce_exp(e, t),
                    None => verifier.verify_expression(e, &default_context()),
                }
            },
            None => Ok(None),
        }?;
        proof { lemma_step_trans(start, s1, *verifier); }
        let ghost s2 = *verifier;
        let init = match init {
            Some(v) => v,
            None => Entity::Value { ty: match annotation_type { Some(t) => t, None => Ty::Any } },
        };
        if is_external {
            if let Some(e) = &binding.initializer {
                if !init.constant() {
                    verifier.add_verify_error(&e.location, DiagnosticKind::EntityIsNotAConstant);
                }
            }
        }
        let ghost s3 = *verifier;
        Self::complete_binding(verifier, scope, &binding.pattern, &init, is_const);
        let ghost s4 = *verifier;
        if binding.type_annotation.is_none() && binding.initializer.is_none() {
            verifier.add_warning(&binding.location, DiagnosticKind::VariableHasNoTypeAnnotation);
        }
        let ghost s5 = *verifier;
        if is_const && binding.initializer.is_none() && !embed {
            verifier.add_verify_error(&binding.location, DiagnosticKind::ConstantMustContainInitializer);
        }
        proof {
            lemma_step_trans(start, s2, s3);
            lemma_step_trans(start, s3, s4);
            lemma_step_trans(start, s4, s5);
            lemma_step_trans(start, s5, *verifier);
            lemma_results_stable(s2, *verifier);
            if binding.type_annotation is None && binding.initializer is None {
                lemma_warning_at_preserved(s5.host.diagnostics@, verifier.host.diagnostics@, binding.location.first_offset);
                assert(s5.reports@[s4.reports@.len() as int] == Diagnostic { location: binding.location,
                    kind: DiagnosticKind::VariableHasNoTypeAnnotation, is_warning: true, is_syntax_error: false });
                lemma_ever_reported_kept(s5, *verifier, binding.location, DiagnosticKind::VariableHasNoTypeAnnotation);
            }
            if is_const && binding.initializer is None && !embed {
                lemma_reported_by_add(s5, *verifier, binding.location, DiagnosticKind::ConstantMustContainInitializer);
                lemma_ever_reported_kept(s5, *verifier, binding.location, DiagnosticKind::ConstantMustContainInitializer);
            }
            if is_external && binding.initializer is Some {
                let e = binding.initializer.unwrap();
                if !init.is_constant() {
                    lemma_error_at_preserved(s3.host.diagnostics@, verifier.host.diagnostics@, e.location.first_offset);
                    lemma_reported_by_add(s2, s3, e.location, DiagnosticKind::EntityIsNotAConstant);
                    lemma_ever_reported_kept(s2, s3, e.location, DiagnosticKind::EntityIsNotAConstant);
                    lemma_ever_reported_kept(s3, *verifier, e.location, DiagnosticKind::EntityIsNotAConstant);
                }
            }
        }
        Ok(())
    }

    /// The last phase of a variable definition, binding by binding.
    fn verify_bindings_omega(verifier: &mut Subverifier, scope: usize, bindings: &Vec<VariableBinding>, is_const: bool,
        is_external: bool, embed: bool) -> (r: Result<(), DeferError>)
        requires
            old(verifier).scope is Some,
            scope < old(verifier).host.scopes@.len(),
        ensures
            final(verifier).step(*old(verifier)),
            r is Ok ==> forall|i: int| 0 <= i < bindings@.len() ==> binding_checked(*final(verifier), #[trigger] bindings@[i],
                is_const, is_external, embed && i == 0),
            bindings_operands_verified(*old(verifier), bindings@) ==> r is Ok,
        decreases bindings, 0nat,
    {
        let ghost start = *verifier;
        let mut k: usize = 0;
        while k < bindings.len()
            invariant
                k <= bindings@.len(),
                start == *old(verifier),
                verifier.step(start),
                verifier.scope is Some,
                scope < verifier.host.scopes@.len(),
                forall|i: int| 0 <= i < k ==> binding_checked(*verifier, #[trigger] bindings@[i], is_const, is_external, embed && i == 0),
                bindings_operands_verified(start, bindings@) ==> bindings_operands_verified(*verifier, bindings@),
            decreases bindings@.len() - k,
        {
            let ghost before = *verifier;
            proof {
                assert(decreases_to!(*bindings => bindings@));
                assert(decreases_to!(bindings@ => bindings@[k as int]));
            }
            let r = Self::verify_binding_omega(verifier, scope, &bindings[k], is_const, is_external, embed && k == 0);
            proof {
                lemma_step_trans(start, before, *verifier);
                if bindings_operands_verified(start, bindings@) {
                    assert(binding_operands_verified(before, bindings@[k as int]));
                    lemma_bindings_operands_stable(before, *verifier, bindings@);
                }
            }
            r?;
            proof {
                assert forall|i: int| 0 <= i < k + 1 implies binding_checked(*verifier, #[trigger] bindings@[i], is_const,
                    is_external, embed && i == 0) by {
                    if i < k {
                        lemma_binding_checked_preserved(before, *verifier, bindings@[i], is_const, is_external, embed && i == 0);
                    }
                }
            }
            k = k + 1;
        }
        Ok(())
    }

    /// Verifies a variable definition in phases. Alpha declares the
    /// bindings with unresolved types; Beta resolves their type annotations,
    /// and Delta those still unresolved; Epsilon passes; Omega verifies the
    /// initializers and completes the bindings. A definition whose attributes
    /// are in error is finished at once.
    fn verify_var_defn(verifier: &mut Subverifier, drtv: &Directive) -> (r: Result<(), DeferError>)
        requires
            old(verifier).scope is Some,
            drtv.kind is VariableDefinition,
        ensures
            final(verifier).step(*old(verifier)),
            is_finished(*old(verifier), drtv.id) ==> *final(verifier) == *old(verifier) && r is Ok,
            r is Ok ==> is_finished(*final(verifier), drtv.id),
            !old(verifier).phase_of_drtv@.contains_key(drtv.id)
                && no_expression_attributes(drtv.kind->VariableDefinition_attributes@) ==> {
                ||| r is Ok && is_finished(*final(verifier), drtv.id)
                ||| r is Err && final(verifier).phase_of_drtv@.get(drtv.id) == Some(VerifierPhase::Beta)
                    && forall|i: int| 0 <= i < drtv.kind->VariableDefinition_bindings@.len()
                        ==> final(verifier).host.node_mapping@.contains_key((#[trigger] drtv.kind->VariableDefinition_bindings@[i]).pattern.id)
            },
        decreases drtv, 0nat,
    {
        let ghost start = *verifier;
        let phase = verifier.lazy_init_drtv_phase(drtv, VerifierPhase::Alpha);
        if phase == VerifierPhase::Finished {
            return Ok(());
        }
        let (is_const, attributes, bindings) = match &drtv.kind {
            DirectiveKind::VariableDefinition { is_const, attributes, bindings } => (*is_const, attributes, bindings),
            _ => { proof { assert(false); } return Ok(()); },
        };
        proof {
            assert(decreases_to!(*drtv => drtv.kind));
            assert(decreases_to!(drtv.kind => drtv.kind->VariableDefinition_attributes));
            assert(decreases_to!(drtv.kind => drtv.kind->VariableDefinition_bindings));
        }
        let ghost s0 = *verifier;
        let local = Self::definition_local_maybe_static(verifier, attributes);
        proof { lemma_step_trans(start, s0, *verifier); }
        let var_scope = match local? {
            Ok(s) => s,
            Err(()) => {
                verifier.set_drtv_phase(drtv, VerifierPhase::Finished);
                return Ok(());
            },
        };
        let is_external = metadata_present(attributes, "Flex::External");
        let ghost s1 = *verifier;
        match phase {
            VerifierPhase::Alpha => {
                Self::declare_bindings(verifier, var_scope, bindings, is_const, is_external);
                proof { lemma_step_trans(start, s1, *verifier); }
                verifier.set_drtv_phase(drtv, VerifierPhase::Beta);
                Err(DeferError)
            },
            VerifierPhase::Beta => {
                let r = Self::resolve_binding_types(verifier, bindings, false);
                proof { lemma_step_trans(start, s1, *verifier); }
                r?;
                verifier.set_drtv_phase(drtv, VerifierPhase::Delta);
                Err(DeferError)
            },
            VerifierPhase::Delta => {
                let r = Self::resolve_binding_types(verifier, bindings, true);
                proof { lemma_step_trans(start, s1, *verifier); }
                r?;
                verifier.set_drtv_phase(drtv, VerifierPhase::Epsilon);
                Err(DeferError)
            },
            VerifierPhase::Epsilon => {
                verifier.set_drtv_phase(drtv, VerifierPhase::Omega);
                Err(DeferError)
            },
            _ => {
                let embed = metadata_present(attributes, "Embed");
                let r = Self::verify_bindings_omega(verifier, var_scope, bindings, is_const, is_external, embed);
                proof { lemma_step_trans(start, s1, *verifier); }
                r?;
                verifier.set_drtv_phase(drtv, VerifierPhase::Finished);
                Ok(())
            },
        }
    }
}

/// Whether a directive can stand under a configuration directive as a
/// conditional: a block, or an `if` whose branches can.
pub open spec fn is_config_subdirective(drtv: Directive) -> bool
    decreases drtv,
{
    match drtv.kind {
        DirectiveKind::Block { .. } => true,
        DirectiveKind::If { consequent, alternative, .. } => {
            proof { assert(decreases_to!(drtv => drtv.kind)); }
            is_config_subdirective(*consequent) && match alternative {
                Some(a) => is_config_subdirective(*a),
                None => true,
            }
        },
        _ => false,
    }
}

/// The test of a conditional under a configuration directive has been
/// verified to a Boolean constant or to nothing, or an error was reported
/// at it.
pub open spec fn config_test_checked(v: Subverifier, test: Expression) -> bool {
    ||| v.spec_has_error_at(test.location)
    ||| v.host.node_mapping@.contains_key(test.id) && match v.value_of(test.id) {
            Some(e) => e is BooleanConstant,
            None => true,
        }
}

/// The test of a conditional has been verified to the Boolean constant `b`.
pub open spec fn config_test_is(v: Subverifier, test: Expression, b: bool) -> bool {
    &&& v.host.node_mapping@.contains_key(test.id)
    &&& match v.value_of(test.id) {
        Some(Entity::BooleanConstant { value, .. }) => value == b,
        _ => false,
    }
}

impl DirectiveSubverifier {
    /// Verifies a conditional under a configuration directive: the
    /// directives of a block, without a scope of their own, or the branch
    /// of an `if` that its test, which must be a Boolean constant, selects.
    #[verifier::spinoff_prover]
    pub fn verify_config_subdirective(verifier: &mut Subverifier, drtv: &Directive) -> (r: Result<(), DeferError>)
        requires
            old(verifier).scope is Some,
            is_config_subdirective(*drtv),
        ensures
            final(verifier).step(*old(verifier)),
            drtv.kind is Block && all_finished(*old(verifier), drtv.kind->Block_block.directives@)
                ==> *final(verifier) == *old(verifier) && r is Ok,
            drtv.kind is If ==> config_test_checked(*final(verifier), *drtv.kind->If_test),
            drtv.kind is If && drtv.kind->If_alternative is None && !config_test_is(*final(verifier), *drtv.kind->If_test, true)
                ==> r is Ok,
            drtv.kind is If && !final(verifier).is_verified(drtv.kind->If_test.id)
                ==> reported(*old(verifier), *final(verifier), drtv.kind->If_test.location, DiagnosticKind::ReachedMaximumCycles),
            drtv.kind is If && !old(verifier).is_verified(drtv.kind->If_test.id) && final(verifier).is_verified(drtv.kind->If_test.id)
                ==> match final(verifier).value_of(drtv.kind->If_test.id) {
                Some(Entity::BooleanConstant { .. }) => true,
                Some(_) => reported(*old(verifier), *final(verifier), drtv.kind->If_test.location, DiagnosticKind::NotABooleanConstant)
                    || reported(*old(verifier), *final(verifier), drtv.kind->If_test.location, DiagnosticKind::ReachedMaximumCycles),
                None => true,
            },
        decreases drtv, 0nat,
    {
        let ghost start = *verifier;
        proof { assert(decreases_to!(*drtv => drtv.kind)); }
        match &drtv.kind {
            DirectiveKind::Block { block } => {
                proof { assert(decreases_to!(drtv.kind => drtv.kind->Block_block)); }
                Self::verify_directives(verifier, &block.directives)
            },
            DirectiveKind::If { test, consequent, alternative } => {
                let mapped = verifier.host.node_mapping.contains_key(&test.id);
                let cval = match verifier.verify_expression(test, &default_context()) {
                    Ok(v) => v,
                    Err(_) => {
                        let ghost s1 = *verifier;
                        verifier.add_verify_error(&test.location, DiagnosticKind::ReachedMaximumCycles);
                        proof {
                            lemma_step_trans(start, s1, *verifier);
                            lemma_reported_by_add(s1, *verifier, test.location, DiagnosticKind::ReachedMaximumCycles);
                            lemma_reported_widen(start, s1, *verifier, *verifier, test.location, DiagnosticKind::ReachedMaximumCycles);
                        }
                        return Ok(());
                    },
                };
                let ghost s2 = *verifier;
                let bv = match cval {
                    Some(Entity::BooleanConstant { value, .. }) => value,
                    Some(_) => {
                        if !mapped {
                            verifier.host.node_invalidation_mapping.insert(test.id, true);
                            proof {
                                assert forall|k: u64| #[trigger] start.host.node_mapping@.contains_key(k) implies
                                    (verifier.host.node_invalidation_mapping@.contains_key(k)
                                        == start.host.node_invalidation_mapping@.contains_key(k)) by {
                                    assert(s2.host.node_mapping@.contains_key(k));
                                }
                                assert(verifier.step(start));
                            }
                        }
                        let ghost s4 = *verifier;
                        verifier.add_verify_error(&test.location, DiagnosticKind::NotABooleanConstant);
                        proof {
                            lemma_step_trans(start, s4, *verifier);
                            lemma_reported_by_add(s4, *verifier, test.location, DiagnosticKind::NotABooleanConstant);
                            lemma_reported_widen(start, s4, *verifier, *verifier, test.location, DiagnosticKind::NotABooleanConstant);
                        }
                        return Ok(());
                    },
                    None => return Ok(()),
                };
                let ghost s3 = *verifier;
                let r = if bv {
                    Self::verify_config_subdirective(verifier, consequent)
                } else {
                    match alternative {
                        Some(alt) => {
                            proof { assert(decreases_to!(drtv.kind => drtv.kind->If_alternative)); }
                            Self::verify_config_subdirective(verifier, alt)
                        },
                        None => Ok(()),
                    }
                };
                proof {
                    lemma_step_trans(start, s3, *verifier);
                    lemma_results_stable(s3, *verifier);
                }
                r
            },
            _ => { proof { assert(false); } Ok(()) },
        }
    }
}

} // verus!
