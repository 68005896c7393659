//! The verifier's entry points: verifying programs and single expressions.
use vstd::prelude::*;
use std::collections::HashMap;
use crate::ast::{Location, Expression, ExpressionKind, Program, PackageDefinition, Directive, DirectiveKind};
use crate::diagnostics::DiagnosticKind;
use crate::semantics::{Database, Entity, Scope, ScopeKind};
use crate::subverifier::{Subverifier, VerifierExpressionContext, VerifierPhase, lemma_error_at_preserved, reported, ever_reported,
    spec_kind_result, mapping_agrees_except,
    finished_ok, lemma_reported_by_add, lemma_ever_reported_kept, spec_filter_result, spec_leaf_result, spec_inline_value};
use crate::exp_names::spec_inline_constant;
use crate::directive::{DirectiveSubverifier, all_recorded, is_phased};
use crate::function_common::MAX_CYCLES;
use crate::exp::{lemma_progress_trans, lemma_step_trans};

verus! {

broadcast use vstd::std_specs::hash::group_hash_axioms;

/// ActionScript 3 and MXML verifier.
///
/// `Verifier` performs type checking and maps nodes to something in the
/// semantic model. A set of programs is verified by `verify_programs()`, a
/// single expression by `verify_expression()`. Scopes are entered and left
/// by `inherit_and_enter_scope()` and `exit_scope()`; entering a scope
/// without a parent gives it the current scope as parent. As programs are
/// verified, the database's node mapping is filled with what program nodes
/// resolve to.
pub struct Verifier {
    verifier: Subverifier,
}

/// Whether every definition conflict recorded in `v` has been reported at
/// the locations of both definitions.
pub open spec fn conflicts_reported(v: Subverifier) -> bool {
    forall|i: int| 0 <= i < v.definition_conflicts@.len() ==> {
        &&& ((#[trigger] v.definition_conflicts@[i]).0.location matches Some(l) ==> v.spec_has_error_at(l)
            && ever_reported(v, l, Subverifier::spec_conflict_kind(v.host.types@, v.definition_conflicts@[i].0)))
        &&& (v.definition_conflicts@[i].1.location matches Some(l) ==> v.spec_has_error_at(l)
            && ever_reported(v, l, Subverifier::spec_conflict_kind(v.host.types@, v.definition_conflicts@[i].1)))
    }
}

/// Whether the caches that live during one verification are empty.
pub open spec fn caches_cleared(v: Subverifier) -> bool {
    &&& v.cached_var_init@ == Map::<u64, Entity>::empty()
    &&& v.phase_of_drtv@ == Map::<u64, VerifierPhase>::empty()
    &&& v.phase_of_block@ == Map::<u64, VerifierPhase>::empty()
    &&& v.deferred_function_exp@ == Map::<u64, crate::function_common::VerifierFunctionPartials>::empty()
    &&& v.function_definition_partials@ == Map::<u64, crate::function_common::VerifierFunctionPartials>::empty()
}

impl Verifier {
    /// The verifier's working state.
    pub closed spec fn state(self) -> Subverifier {
        self.verifier
    }

    /// A verifier over the database `host`, with no current scope.
    pub fn new(host: Database) -> (r: Verifier)
        ensures
            r.state().host == host,
            !r.state().invalidated,
            r.state().scope is None,
            !r.state().external,
            caches_cleared(r.state()),
            r.state().definition_conflicts@.len() == 0,
            finished_ok(r.state()),
    {
        Verifier {
            verifier: Subverifier {
                host,
                cached_var_init: HashMap::new(),
                phase_of_drtv: HashMap::new(),
                phase_of_block: HashMap::new(),
                deferred_function_exp: HashMap::new(),
                function_definition_partials: HashMap::new(),
                definition_conflicts: Vec::new(),
                node_scopes: HashMap::new(),
                invalidated: false,
                scope: None,
                external: false,
                reports: Ghost(Seq::empty()),
                finished: Ghost(Set::empty()),
            },
        }
    }

    /// Indicates whether an error was found while verifying the program.
    pub fn invalidated(&self) -> (r: bool)
        ensures
            r == self.state().invalidated,
    {
        self.verifier.invalidated
    }

    /// The database the verifier fills.
    pub fn host(&self) -> (r: &Database)
        ensures
            *r == self.state().host,
    {
        &self.verifier.host
    }

    pub fn set_scope(&mut self, scope: usize)
        ensures
            finished_ok(old(self).state()) ==> finished_ok(final(self).state()),
            final(self).state().scope == Some(scope),
            final(self).state().host == old(self).state().host,
            final(self).state().invalidated == old(self).state().invalidated,
    {
        self.verifier.set_scope(scope);
    }

    /// Enters `scope`; a scope without a parent takes the current scope as parent.
    pub fn inherit_and_enter_scope(&mut self, scope: usize)
        ensures
            finished_ok(old(self).state()) ==> finished_ok(final(self).state()),
            final(self).state().scope == Some(scope),
            final(self).state().progress(old(self).state()),
            scope < old(self).state().host.scopes@.len() && old(self).state().host.scopes@[scope as int].parent is None ==>
                final(self).state().host.scopes@ == old(self).state().host.scopes@.update(scope as int,
                    Scope { parent: old(self).state().scope, ..old(self).state().host.scopes@[scope as int] }),
            !(scope < old(self).state().host.scopes@.len() && old(self).state().host.scopes@[scope as int].parent is None) ==>
                final(self).state().host.scopes@ == old(self).state().host.scopes@,
            final(self).state().host.node_mapping == old(self).state().host.node_mapping,
            final(self).state().host.diagnostics == old(self).state().host.diagnostics,
            final(self).state().invalidated == old(self).state().invalidated,
    {
        self.verifier.inherit_and_enter_scope(scope);
    }

    /// Leaves the current scope for its parent.
    pub fn exit_scope(&mut self)
        ensures
            finished_ok(old(self).state()) ==> finished_ok(final(self).state()),
            final(self).state().scope == (match old(self).state().scope {
                Some(s) => if s < old(self).state().host.scopes@.len() { old(self).state().host.scopes@[s as int].parent } else { None },
                None => None,
            }),
            final(self).state().host == old(self).state().host,
    {
        self.verifier.exit_scope();
    }

    pub fn external(&self) -> (r: bool)
        ensures
            r == self.state().external,
    {
        self.verifier.external
    }

    pub fn set_external(&mut self, value: bool)
        ensures
            finished_ok(old(self).state()) ==> finished_ok(final(self).state()),
            final(self).state().external == value,
            final(self).state().host == old(self).state().host,
            final(self).state().scope == old(self).state().scope,
    {
        self.verifier.external = value;
    }

    /// Reports every recorded definition conflict, and clears the caches of
    /// the verification.
    fn finish(&mut self)
        ensures
            final(self).state().step(old(self).state()),
            final(self).state().host.node_mapping == old(self).state().host.node_mapping,
            final(self).state().host.node_invalidation_mapping == old(self).state().host.node_invalidation_mapping,
            final(self).state().definition_conflicts == old(self).state().definition_conflicts,
            conflicts_reported(final(self).state()),
            caches_cleared(final(self).state()),
    {
        let ghost start = self.verifier;
        let mut i: usize = 0;
        while i < self.verifier.definition_conflicts.len()
            invariant
                i <= self.verifier.definition_conflicts@.len(),
                self.verifier.step(start),
                self.verifier.host.node_mapping == start.host.node_mapping,
                self.verifier.host.node_invalidation_mapping == start.host.node_invalidation_mapping,
                self.verifier.definition_conflicts == start.definition_conflicts,
                self.verifier.host.types == start.host.types,
                forall|j: int| 0 <= j < i ==> {
                    &&& ((#[trigger] self.verifier.definition_conflicts@[j]).0.location matches Some(l) ==> self.verifier.spec_has_error_at(l)
                        && ever_reported(self.verifier, l, Subverifier::spec_conflict_kind(self.verifier.host.types@, self.verifier.definition_conflicts@[j].0)))
                    &&& (self.verifier.definition_conflicts@[j].1.location matches Some(l) ==> self.verifier.spec_has_error_at(l)
                        && ever_reported(self.verifier, l, Subverifier::spec_conflict_kind(self.verifier.host.types@, self.verifier.definition_conflicts@[j].1)))
                },
            decreases self.verifier.definition_conflicts@.len() - i,
        {
            let ghost before = self.verifier;
            let prev = self.verifier.definition_conflicts[i].0.clone_property();
            let new = self.verifier.definition_conflicts[i].1.clone_property();
            self.verifier.finish_definition_conflict(&prev, &new);
            proof {
                lemma_step_trans(start, before, self.verifier);
                assert forall|j: int| 0 <= j < i + 1 implies {
                    &&& ((#[trigger] self.verifier.definition_conflicts@[j]).0.location matches Some(l) ==> self.verifier.spec_has_error_at(l)
                        && ever_reported(self.verifier, l, Subverifier::spec_conflict_kind(self.verifier.host.types@, self.verifier.definition_conflicts@[j].0)))
                    &&& (self.verifier.definition_conflicts@[j].1.location matches Some(l) ==> self.verifier.spec_has_error_at(l)
                        && ever_reported(self.verifier, l, Subverifier::spec_conflict_kind(self.verifier.host.types@, self.verifier.definition_conflicts@[j].1)))
                } by {
                    assert(before.definition_conflicts@[j] == self.verifier.definition_conflicts@[j]);
                    if j < i {
                        if let Some(l) = self.verifier.definition_conflicts@[j].0.location {
                            lemma_error_at_preserved(before.host.diagnostics@, self.verifier.host.diagnostics@, l.first_offset);
                            let k = choose|k: int| 0 <= k < before.reports@.len() && #[trigger] before.reports@[k]
                                == (crate::diagnostics::Diagnostic { location: l,
                                    kind: Subverifier::spec_conflict_kind(before.host.types@, before.definition_conflicts@[j].0),
                                    is_warning: false, is_syntax_error: false });
                            assert(self.verifier.reports@[k] == before.reports@[k]);
                        }
                        if let Some(l) = self.verifier.definition_conflicts@[j].1.location {
                            lemma_error_at_preserved(before.host.diagnostics@, self.verifier.host.diagnostics@, l.first_offset);
                            let k = choose|k: int| 0 <= k < before.reports@.len() && #[trigger] before.reports@[k]
                                == (crate::diagnostics::Diagnostic { location: l,
                                    kind: Subverifier::spec_conflict_kind(before.host.types@, before.definition_conflicts@[j].1),
                                    is_warning: false, is_syntax_error: false });
                            assert(self.verifier.reports@[k] == before.reports@[k]);
                        }
                    } else {
                        assert(self.verifier.definition_conflicts@[j].0 == prev);
                        assert(self.verifier.definition_conflicts@[j].1 == new);
                        if let Some(l) = prev.location {
                            let k = choose|k: int| before.reports@.len() <= k < self.verifier.reports@.len() && #[trigger] self.verifier.reports@[k]
                                == (crate::diagnostics::Diagnostic { location: l,
                                    kind: Subverifier::spec_conflict_kind(before.host.types@, prev), is_warning: false, is_syntax_error: false });
                        }
                        if let Some(l) = new.location {
                            let k = choose|k: int| before.reports@.len() <= k < self.verifier.reports@.len() && #[trigger] self.verifier.reports@[k]
                                == (crate::diagnostics::Diagnostic { location: l,
                                    kind: Subverifier::spec_conflict_kind(before.host.types@, new), is_warning: false, is_syntax_error: false });
                        }
                    }
                }
            }
            i = i + 1;
        }
        self.verifier.reset_state();
    }

    /// Verifies an expression in the current scope. Gives `None` if its
    /// verification failed; a verification that cannot finish is reported.
    /// Definition conflicts found are reported at both definitions.
    pub fn verify_expression(&mut self, exp: &Expression, context: &VerifierExpressionContext) -> (r: Option<Entity>)
        requires
            !old(self).state().invalidated,
            old(self).state().scope is Some || old(self).state().host.node_mapping@.contains_key(exp.id)
                || spec_leaf_result(*exp, *context) is Some,
        ensures
            final(self).state().step(old(self).state()),
            old(self).state().host.node_mapping@.contains_key(exp.id) ==> r == old(self).state().value_of(exp.id),
            r is Some ==> final(self).state().has_value(exp.id, r),
            r is None ==> final(self).state().has_value(exp.id, None)
                || reported(old(self).state(), final(self).state(), exp.location, DiagnosticKind::ReachedMaximumCycles),
            final(self).state().is_verified(exp.id)
                && !reported(old(self).state(), final(self).state(), exp.location, DiagnosticKind::ReachedMaximumCycles)
                ==> r == final(self).state().value_of(exp.id),
            !old(self).state().host.node_mapping@.contains_key(exp.id) ==> match exp.kind {
                ExpressionKind::QualifiedIdentifier(id) => spec_inline_constant(old(self).state(), id) is Some
                    ==> r == spec_filter_result(spec_inline_value(old(self).state(), id)),
                _ => true,
            },
            !old(self).state().host.node_mapping@.contains_key(exp.id) ==> match spec_leaf_result(*exp, *context) {
                Some(x) => r == spec_filter_result(x),
                None => true,
            },
            !reported(old(self).state(), final(self).state(), exp.location, DiagnosticKind::ReachedMaximumCycles)
                ==> conflicts_reported(final(self).state()),
            !old(self).state().host.node_mapping@.contains_key(exp.id)
                && !reported(old(self).state(), final(self).state(), exp.location, DiagnosticKind::ReachedMaximumCycles)
                ==> exists|mid: Subverifier, res: Option<Entity>| #![trigger spec_kind_result(old(self).state(), mid, *exp, *context, res)]
                    spec_kind_result(old(self).state(), mid, *exp, *context, res) && r == spec_filter_result(res)
                    && mid.progress(old(self).state()) && mapping_agrees_except(mid, final(self).state(), exp.id),
            caches_cleared(final(self).state()),
    {
        let ghost start = self.verifier;
        let v = self.verifier.verify_expression(exp, context);
        let ghost s1 = self.verifier;
        match v {
            Ok(v) => {
                self.finish();
                proof {
                    lemma_step_trans(start, s1, self.verifier);
                    crate::exp::lemma_results_stable(s1, self.verifier);
                }
                v
            },
            Err(_) => {
                self.verifier.add_verify_error(&exp.location, DiagnosticKind::ReachedMaximumCycles);
                let ghost s2 = self.verifier;
                self.verifier.reset_state();
                proof {
                    lemma_step_trans(start, s1, s2);
                    lemma_step_trans(start, s2, self.verifier);
                    assert(self.verifier.reports@[s1.reports@.len() as int] == s2.reports@[s1.reports@.len() as int]);
                    assert(start.reports@.len() <= s1.reports@.len());
                    lemma_error_at_preserved(s2.host.diagnostics@, self.verifier.host.diagnostics@, exp.location.first_offset);
                }
                None
            },
        }
    }
}

/// The package definitions that the include directives of a list hold, in
/// order, each include's own before those of its nested directives.
pub open spec fn included_packages(ds: Seq<Directive>) -> Seq<PackageDefinition>
    decreases ds,
{
    if ds.len() == 0 {
        Seq::empty()
    } else {
        included_packages(ds.drop_last()) + directive_included_packages(ds.last())
    }
}

/// The package definitions that an include directive holds, with those of
/// its nested directives.
pub open spec fn directive_included_packages(d: Directive) -> Seq<PackageDefinition>
    decreases d,
{
    match d.kind {
        DirectiveKind::Include { nested_packages, nested_directives } =>
            nested_packages@ + included_packages(nested_directives@),
        _ => Seq::empty(),
    }
}

/// The package definitions a list of references refers to.
pub open spec fn referenced<'a>(s: Seq<&'a PackageDefinition>) -> Seq<PackageDefinition> {
    s.map_values(|p: &'a PackageDefinition| *p)
}

/// The package definitions of programs, each program's in turn.
pub open spec fn all_packages(programs: Seq<Program>) -> Seq<PackageDefinition>
    decreases programs.len(),
{
    if programs.len() == 0 {
        Seq::empty()
    } else {
        all_packages(programs.drop_last()) + programs.last().packages@ + included_packages(programs.last().directives@)
    }
}

/// Every package's directives that go through phases have finished.
pub open spec fn packages_recorded(v: Subverifier, packages: Seq<PackageDefinition>) -> bool {
    forall|j: int| 0 <= j < packages.len() ==> #[trigger] all_recorded(v, packages[j].block.directives@)
}

/// Every program's top-level directives that go through phases have finished.
pub open spec fn programs_recorded(v: Subverifier, programs: Seq<Program>) -> bool {
    forall|j: int| 0 <= j < programs.len() ==> #[trigger] all_recorded(v, programs[j].directives@)
}

/// Directives once finished stay recorded as finished.
pub proof fn lemma_all_recorded_stable(a: Subverifier, b: Subverifier, list: Seq<Directive>)
    requires
        all_recorded(a, list),
        b.progress(a),
    ensures
        all_recorded(b, list),
{
    assert forall|i: int| 0 <= i < list.len() && is_phased((#[trigger] list[i]).kind) && !(list[i].kind is Configuration)
        implies b.finished@.contains(list[i].id) by {
        assert(a.finished@.contains(list[i].id));
    }
}

/// Whether a directive goes through phases and is not a configuration directive.
fn phased_kind(kind: &DirectiveKind) -> (r: bool)
    ensures
        r == (is_phased(*kind) && !(*kind is Configuration)),
{
    match kind {
        DirectiveKind::VariableDefinition { .. } | DirectiveKind::FunctionDefinition { .. } | DirectiveKind::Block { .. }
        | DirectiveKind::UseNamespace { .. } | DirectiveKind::Injection { .. }
        | DirectiveKind::Import { .. } | DirectiveKind::PackageConcat { .. } => true,
        DirectiveKind::Include { nested_directives, .. } => nested_directives.len() > 0,
        _ => false,
    }
}

impl Verifier {
    /// The package definitions of a program: its own, then those of its
    /// include directives.
    fn collect_package_definitions<'a>(program: &'a Program) -> (r: Vec<&'a PackageDefinition>)
        ensures
            r@.len() >= program.packages@.len(),
            forall|i: int| 0 <= i < program.packages@.len() ==> *(#[trigger] r@[i]) == program.packages@[i],
            referenced(r@) == program.packages@ + included_packages(program.directives@),
    {
        let mut r: Vec<&'a PackageDefinition> = Vec::new();
        let mut i: usize = 0;
        while i < program.packages.len()
            invariant
                i <= program.packages@.len(),
                r@.len() == i,
                forall|j: int| 0 <= j < i ==> *(#[trigger] r@[j]) == program.packages@[j],
                referenced(r@) == program.packages@.take(i as int),
            decreases program.packages@.len() - i,
        {
            let ghost o = r@;
            r.push(&program.packages[i]);
            proof {
                assert(referenced(r@) =~= referenced(o).push(program.packages@[i as int]));
                assert(program.packages@.take(i + 1) =~= program.packages@.take(i as int).push(program.packages@[i as int]));
            }
            i = i + 1;
        }
        proof { assert(program.packages@.take(i as int) =~= program.packages@); }
        Self::collect_package_definitions_from_include(&program.directives, &mut r);
        r
    }

    /// Appends the package definitions of the include directives of a list.
    fn collect_package_definitions_from_include<'a>(directives: &'a Vec<Directive>, out: &mut Vec<&'a PackageDefinition>)
        ensures
            final(out)@.len() >= old(out)@.len(),
            forall|i: int| 0 <= i < old(out)@.len() ==> #[trigger] final(out)@[i] == old(out)@[i],
            referenced(final(out)@) == referenced(old(out)@) + included_packages(directives@),
        decreases directives,
    {
        let mut k: usize = 0;
        while k < directives.len()
            invariant
                k <= directives@.len(),
                out@.len() >= old(out)@.len(),
                forall|i: int| 0 <= i < old(out)@.len() ==> #[trigger] out@[i] == old(out)@[i],
                referenced(out@) == referenced(old(out)@) + included_packages(directives@.take(k as int)),
            decreases directives@.len() - k,
        {
            let ghost before = referenced(out@);
            proof {
                assert(directives@.take(k + 1).drop_last() =~= directives@.take(k as int));
                assert(directives@.take(k + 1).last() == directives@[k as int]);
            }
            if let DirectiveKind::Include { nested_packages, nested_directives } = &directives[k].kind {
                let mut i: usize = 0;
                while i < nested_packages.len()
                    invariant
                        i <= nested_packages@.len(),
                        out@.len() >= old(out)@.len(),
                        forall|j: int| 0 <= j < old(out)@.len() ==> #[trigger] out@[j] == old(out)@[j],
                        referenced(out@) == before + nested_packages@.take(i as int),
                    decreases nested_packages@.len() - i,
                {
                    let ghost o = out@;
                    out.push(&nested_packages[i]);
                    proof {
                        assert(referenced(out@) =~= referenced(o).push(nested_packages@[i as int]));
                        assert(nested_packages@.take(i + 1) =~= nested_packages@.take(i as int).push(nested_packages@[i as int]));
                    }
                    i = i + 1;
                }
                proof {
                    assert(nested_packages@.take(i as int) =~= nested_packages@);
                    assert(decreases_to!(*directives => directives@));
                    assert(decreases_to!(directives@ => directives@[k as int]));
                    assert(decreases_to!(directives@[k as int] => directives@[k as int].kind));
                }
                Self::collect_package_definitions_from_include(nested_directives, out);
                proof {
                    assert(directive_included_packages(directives@[k as int]) == nested_packages@ + included_packages(nested_directives@));
                    assert(referenced(out@) =~= referenced(old(out)@) + included_packages(directives@.take(k + 1)));
                }
            } else {
                proof {
                    assert(directive_included_packages(directives@[k as int]) =~= Seq::<PackageDefinition>::empty());
                    assert(referenced(out@) =~= referenced(old(out)@) + included_packages(directives@.take(k + 1)));
                }
            }
            k = k + 1;
        }
        proof { assert(directives@.take(k as int) =~= directives@); }
    }

    /// The scope of a package definition, made the first time: a package
    /// scope whose parent is the top-level scope.
    fn package_scope(&mut self, top: usize, pkg: &PackageDefinition) -> (r: usize)
        requires
            top < old(self).state().host.scopes@.len(),
        ensures
            final(self).state().progress(old(self).state()),
            r < final(self).state().host.scopes@.len(),
            final(self).state().host.scopes@[r as int].kind is Package,
    {
        let ghost start = self.verifier;
        if let Some(s) = self.verifier.node_scopes.get(&pkg.id) {
            if *s < self.verifier.host.scopes.len() && matches!(self.verifier.host.scopes[*s].kind, ScopeKind::Package { .. }) {
                return *s;
            }
        }
        let p = self.verifier.host.package_or_create(&pkg.name);
        let ghost s1 = self.verifier;
        let s = self.verifier.host.create_scope(ScopeKind::Package { package: p });
        let ghost s2 = self.verifier;
        self.verifier.scope = Some(top);
        self.verifier.inherit_and_enter_scope(s);
        self.verifier.node_scopes.insert(pkg.id, s);
        proof {
            assert(s1.progress(start));
            assert(s2.progress(s1));
            lemma_progress_trans(start, s1, s2);
            lemma_progress_trans(start, s2, self.verifier);
        }
        s
    }

    /// Verifies programs: the directives of their packages, each in its
    /// package's scope, and their top-level directives, in cycles until no
    /// verification defers, at most `MAX_CYCLES` cycles. When the last cycle
    /// still defers, reaching the limit is reported at the block of every
    /// package and at every top-level directive that has not finished.
    /// Definition conflicts found are reported at both definitions.
    pub fn verify_programs(&mut self, programs: &Vec<Program>)
        requires
            !old(self).state().invalidated,
        ensures
            final(self).state().progress(old(self).state()),
            conflicts_reported(final(self).state()),
            caches_cleared(final(self).state()),
            finished_ok(old(self).state()) ==> finished_ok(final(self).state()),
            finished_ok(old(self).state()) ==> forall|j: int| 0 <= j < all_packages(programs@).len() ==>
                all_recorded(final(self).state(), (#[trigger] all_packages(programs@)[j]).block.directives@)
                || ever_reported(final(self).state(), all_packages(programs@)[j].block.location, DiagnosticKind::ReachedMaximumCycles),
            finished_ok(old(self).state()) ==> forall|k: int, i: int| 0 <= k < programs@.len() && 0 <= i < programs@[k].directives@.len()
                && is_phased((#[trigger] programs@[k].directives@[i]).kind) && !(programs@[k].directives@[i].kind is Configuration)
                ==> final(self).state().finished@.contains(programs@[k].directives@[i].id)
                    || ever_reported(final(self).state(), programs@[k].directives@[i].location, DiagnosticKind::ReachedMaximumCycles),
    {
        let ghost start = self.verifier;
        let mut packages: Vec<&PackageDefinition> = Vec::new();
        let mut i: usize = 0;
        while i < programs.len()
            invariant
                i <= programs@.len(),
                referenced(packages@) == all_packages(programs@.take(i as int)),
            decreases programs@.len() - i,
        {
            let ps = Self::collect_package_definitions(&programs[i]);
            let ghost before = referenced(packages@);
            let mut j: usize = 0;
            while j < ps.len()
                invariant
                    j <= ps@.len(),
                    referenced(packages@) == before + referenced(ps@).take(j as int),
                decreases ps@.len() - j,
            {
                let ghost o = packages@;
                packages.push(ps[j]);
                proof {
                    assert(referenced(packages@) =~= referenced(o).push(*ps@[j as int]));
                    assert(referenced(ps@).take(j + 1) =~= referenced(ps@).take(j as int).push(*ps@[j as int]));
                }
                j = j + 1;
            }
            proof {
                assert(referenced(ps@).take(j as int) =~= referenced(ps@));
                assert(programs@.take(i + 1).drop_last() =~= programs@.take(i as int));
            }
            i = i + 1;
        }
        proof { assert(programs@.take(i as int) =~= programs@); }
        let top = if self.verifier.host.scopes.len() > 0 {
            0
        } else {
            self.verifier.host.create_scope(ScopeKind::Plain)
        };
        let ghost s0 = self.verifier;
        proof { assert(s0.progress(start)); }
        let mut any_defer = true;
        let mut cycle: usize = 0;
        while any_defer && cycle < MAX_CYCLES
            invariant
                self.verifier.progress(start),
                top < self.verifier.host.scopes@.len(),
                finished_ok(start) && !any_defer ==> packages_recorded(self.verifier, referenced(packages@))
                    && programs_recorded(self.verifier, programs@),
            decreases MAX_CYCLES - cycle,
        {
            any_defer = false;
            let mut k: usize = 0;
            while k < packages.len()
                invariant
                    self.verifier.progress(start),
                    top < self.verifier.host.scopes@.len(),
                    k <= packages@.len(),
                    finished_ok(start) && !any_defer ==> packages_recorded(self.verifier, referenced(packages@).take(k as int)),
                decreases packages@.len() - k,
            {
                let ghost before = self.verifier;
                let ps = self.package_scope(top, packages[k]);
                let ghost s1 = self.verifier;
                self.verifier.scope = Some(ps);
                let ghost s2 = self.verifier;
                let r = DirectiveSubverifier::verify_directives(&mut self.verifier, &packages[k].block.directives);
                proof {
                    lemma_progress_trans(before, s1, s2);
                    lemma_progress_trans(before, s2, self.verifier);
                    lemma_progress_trans(start, before, self.verifier);
                    if finished_ok(start) && !any_defer && r.is_ok() {
                        assert(finished_ok(s2));
                        let ls = referenced(packages@).take(k + 1);
                        assert forall|j: int| 0 <= j < ls.len() implies #[trigger] all_recorded(self.verifier, ls[j].block.directives@) by {
                            if j < k {
                                assert(ls[j] == referenced(packages@).take(k as int)[j]);
                                lemma_all_recorded_stable(before, self.verifier, ls[j].block.directives@);
                            } else {
                                assert(ls[j] == *packages@[k as int]);
                            }
                        }
                    }
                }
                any_defer = any_defer || r.is_err();
                k = k + 1;
            }
            proof { assert(referenced(packages@).take(k as int) =~= referenced(packages@)); }
            let ghost after_packages = self.verifier;
            let ghost defer_after_packages = any_defer;
            let mut k: usize = 0;
            while k < programs.len()
                invariant
                    self.verifier.progress(start),
                    self.verifier.progress(after_packages),
                    !any_defer ==> !defer_after_packages,
                    top < self.verifier.host.scopes@.len(),
                    k <= programs@.len(),
                    finished_ok(start) && !any_defer ==> programs_recorded(self.verifier, programs@.take(k as int)),
                decreases programs@.len() - k,
            {
                let ghost before = self.verifier;
                self.verifier.scope = Some(top);
                let ghost s1 = self.verifier;
                let r = DirectiveSubverifier::verify_directives(&mut self.verifier, &programs[k].directives);
                proof {
                    lemma_progress_trans(before, s1, self.verifier);
                    lemma_progress_trans(start, before, self.verifier);
                    lemma_progress_trans(after_packages, before, self.verifier);
                    if finished_ok(start) && !any_defer && r.is_ok() {
                        assert(finished_ok(s1));
                        let ls = programs@.take(k + 1);
                        assert forall|j: int| 0 <= j < ls.len() implies #[trigger] all_recorded(self.verifier, ls[j].directives@) by {
                            if j < k {
                                assert(ls[j] == programs@.take(k as int)[j]);
                                lemma_all_recorded_stable(before, self.verifier, ls[j].directives@);
                            } else {
                                assert(ls[j] == programs@[k as int]);
                            }
                        }
                    }
                }
                any_defer = any_defer || r.is_err();
                k = k + 1;
            }
            proof {
                assert(programs@.take(k as int) =~= programs@);
                if finished_ok(start) && !any_defer {
                    let ls = referenced(packages@);
                    assert(packages_recorded(after_packages, ls));
                    assert forall|j: int| 0 <= j < ls.len() implies #[trigger] all_recorded(self.verifier, ls[j].block.directives@) by {
                        assert(all_recorded(after_packages, ls[j].block.directives@));
                        lemma_all_recorded_stable(after_packages, self.verifier, ls[j].block.directives@);
                    }
                }
            }
            cycle = cycle + 1;
        }
        let ghost s_cycles = self.verifier;
        let ghost mut s_pk = self.verifier;
        if any_defer {
            let mut k: usize = 0;
            while k < packages.len()
                invariant
                    self.verifier.progress(start),
                    self.verifier.progress(s_cycles),
                    k <= packages@.len(),
                    forall|j: int| 0 <= j < k ==> ever_reported(self.verifier, (#[trigger] referenced(packages@)[j]).block.location,
                        DiagnosticKind::ReachedMaximumCycles),
                decreases packages@.len() - k,
            {
                let ghost before = self.verifier;
                self.verifier.add_verify_error(&packages[k].block.location, DiagnosticKind::ReachedMaximumCycles);
                proof {
                    lemma_progress_trans(start, before, self.verifier);
                    lemma_progress_trans(s_cycles, before, self.verifier);
                    lemma_reported_by_add(before, self.verifier, packages[k as int].block.location, DiagnosticKind::ReachedMaximumCycles);
                    lemma_ever_reported_kept(before, self.verifier, packages[k as int].block.location, DiagnosticKind::ReachedMaximumCycles);
                    assert forall|j: int| 0 <= j < k + 1 implies ever_reported(self.verifier, (#[trigger] referenced(packages@)[j]).block.location,
                        DiagnosticKind::ReachedMaximumCycles) by {
                        if j < k {
                            lemma_ever_reported_kept(before, self.verifier, referenced(packages@)[j].block.location, DiagnosticKind::ReachedMaximumCycles);
                        }
                    }
                }
                k = k + 1;
            }
            proof { s_pk = self.verifier; }
            let mut k: usize = 0;
            while k < programs.len()
                invariant
                    self.verifier.progress(start),
                    self.verifier.progress(s_pk),
                    k <= programs@.len(),
                    finished_ok(start) ==> finished_ok(self.verifier),
                    finished_ok(start) ==> forall|q: int, i: int| 0 <= q < k && 0 <= i < programs@[q].directives@.len()
                        && is_phased((#[trigger] programs@[q].directives@[i]).kind) && !(programs@[q].directives@[i].kind is Configuration)
                        ==> self.verifier.finished@.contains(programs@[q].directives@[i].id)
                            || ever_reported(self.verifier, programs@[q].directives@[i].location, DiagnosticKind::ReachedMaximumCycles),
                decreases programs@.len() - k,
            {
                let ghost at_program = self.verifier;
                let ds = &programs[k].directives;
                let mut i: usize = 0;
                while i < ds.len()
                    invariant
                        self.verifier.progress(start),
                        self.verifier.progress(at_program),
                        i <= ds@.len(),
                        ds@ == programs@[k as int].directives@,
                        k < programs@.len(),
                        finished_ok(start) ==> finished_ok(self.verifier),
                        finished_ok(start) ==> forall|q: int, i2: int| 0 <= q < k && 0 <= i2 < programs@[q].directives@.len()
                            && is_phased((#[trigger] programs@[q].directives@[i2]).kind) && !(programs@[q].directives@[i2].kind is Configuration)
                            ==> self.verifier.finished@.contains(programs@[q].directives@[i2].id)
                                || ever_reported(self.verifier, programs@[q].directives@[i2].location, DiagnosticKind::ReachedMaximumCycles),
                        finished_ok(start) ==> forall|i2: int| 0 <= i2 < i && is_phased((#[trigger] ds@[i2]).kind) && !(ds@[i2].kind is Configuration)
                            ==> self.verifier.finished@.contains(ds@[i2].id)
                                || ever_reported(self.verifier, ds@[i2].location, DiagnosticKind::ReachedMaximumCycles),
                    decreases ds@.len() - i,
                {
                    let ghost before = self.verifier;
                    let unfinished = phased_kind(&ds[i].kind) && !matches!(self.verifier.phase_of_drtv.get(&ds[i].id), Some(VerifierPhase::Finished));
                    if unfinished {
                        self.verifier.add_verify_error(&ds[i].location, DiagnosticKind::ReachedMaximumCycles);
                        proof {
                            lemma_reported_by_add(before, self.verifier, ds@[i as int].location, DiagnosticKind::ReachedMaximumCycles);
                            lemma_ever_reported_kept(before, self.verifier, ds@[i as int].location, DiagnosticKind::ReachedMaximumCycles);
                        }
                    }
                    proof {
                        lemma_progress_trans(start, before, self.verifier);
                        lemma_progress_trans(at_program, before, self.verifier);
                        if finished_ok(start) {
                            assert forall|q: int, i2: int| 0 <= q < k && 0 <= i2 < programs@[q].directives@.len()
                                && is_phased((#[trigger] programs@[q].directives@[i2]).kind) && !(programs@[q].directives@[i2].kind is Configuration)
                                implies self.verifier.finished@.contains(programs@[q].directives@[i2].id)
                                    || ever_reported(self.verifier, programs@[q].directives@[i2].location, DiagnosticKind::ReachedMaximumCycles) by {
                                lemma_ever_reported_kept(before, self.verifier, programs@[q].directives@[i2].location, DiagnosticKind::ReachedMaximumCycles);
                            }
                            assert forall|i2: int| 0 <= i2 < i + 1 && is_phased((#[trigger] ds@[i2]).kind) && !(ds@[i2].kind is Configuration)
                                implies self.verifier.finished@.contains(ds@[i2].id)
                                    || ever_reported(self.verifier, ds@[i2].location, DiagnosticKind::ReachedMaximumCycles) by {
                                lemma_ever_reported_kept(before, self.verifier, ds@[i2].location, DiagnosticKind::ReachedMaximumCycles);
                                if i2 == i && !unfinished {
                                    assert(before.phase_of_drtv@.contains_key(ds@[i2].id));
                                }
                            }
                        }
                    }
                    i = i + 1;
                }
                proof {
                    if finished_ok(start) {
                        assert forall|q: int, i2: int| 0 <= q < k + 1 && 0 <= i2 < programs@[q].directives@.len()
                            && is_phased((#[trigger] programs@[q].directives@[i2]).kind) && !(programs@[q].directives@[i2].kind is Configuration)
                            implies self.verifier.finished@.contains(programs@[q].directives@[i2].id)
                                || ever_reported(self.verifier, programs@[q].directives@[i2].location, DiagnosticKind::ReachedMaximumCycles) by {
                            if q == k {
                                assert(ds@[i2] == programs@[q].directives@[i2]);
                            }
                        }
                    }
                }
                k = k + 1;
            }
        }
        let ghost s3 = self.verifier;
        self.finish();
        proof {
            lemma_progress_trans(start, s3, self.verifier);
            if finished_ok(start) {
                let ps = all_packages(programs@);
                assert forall|j: int| 0 <= j < ps.len() implies
                    all_recorded(self.verifier, (#[trigger] ps[j]).block.directives@)
                    || ever_reported(self.verifier, ps[j].block.location, DiagnosticKind::ReachedMaximumCycles) by {
                    assert(ps[j] == referenced(packages@)[j]);
                    if any_defer {
                        assert(ever_reported(s_pk, referenced(packages@)[j].block.location, DiagnosticKind::ReachedMaximumCycles));
                        lemma_ever_reported_kept(s_pk, s3, ps[j].block.location, DiagnosticKind::ReachedMaximumCycles);
                        lemma_ever_reported_kept(s3, self.verifier, ps[j].block.location, DiagnosticKind::ReachedMaximumCycles);
                    } else {
                        assert(all_recorded(s3, referenced(packages@)[j].block.directives@));
                        lemma_all_recorded_stable(s3, self.verifier, ps[j].block.directives@);
                    }
                }
                assert forall|k: int, i: int| 0 <= k < programs@.len() && 0 <= i < programs@[k].directives@.len()
                    && is_phased((#[trigger] programs@[k].directives@[i]).kind) && !(programs@[k].directives@[i].kind is Configuration)
                    implies self.verifier.finished@.contains(programs@[k].directives@[i].id)
                        || ever_reported(self.verifier, programs@[k].directives@[i].location, DiagnosticKind::ReachedMaximumCycles) by {
                    lemma_ever_reported_kept(s3, self.verifier, programs@[k].directives@[i].location, DiagnosticKind::ReachedMaximumCycles);
                    if !any_defer {
                        assert(all_recorded(s3, programs@[k].directives@));
                    }
                }
            }
        }
    }
}
} // verus!
