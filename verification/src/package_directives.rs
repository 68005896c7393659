//! Verification of import aliases and package concatenations.
use vstd::prelude::*;
use crate::ast::{Directive, DirectiveKind, ImportSpecifier, Location};
use crate::diagnostics::DiagnosticKind;
use crate::semantics::{Ty, Entity, Property, PropertyKind, ReferenceBase, ScopeKind, Database, clone_property_kind};
use crate::subverifier::{Subverifier, VerifierPhase, DeferError};
use crate::resolution::{find_property, spec_find_property};
use crate::directive::{DirectiveSubverifier, is_finished};
use crate::function_definition::lemma_scope_properties_step;
use crate::exp::lemma_step_trans;

verus! {

broadcast use vstd::std_specs::hash::group_hash_axioms;

/// The property that an alias stands for before it is resolved.
pub open spec fn spec_unresolved_alias() -> PropertyKind {
    PropertyKind::Variable { static_type: Ty::Unresolved, read_only: true, write_only: false, constant: None }
}

/// The property that an alias of something undefined stands for.
pub open spec fn spec_invalid_alias() -> PropertyKind {
    PropertyKind::Variable { static_type: Ty::Invalidation, read_only: true, write_only: false, constant: None }
}

/// What the alias of the property `name` of package `p` stands for: that
/// property, if the package has it.
pub open spec fn spec_alias_target(db: Database, p: usize, name: Seq<char>) -> Option<PropertyKind> {
    if p < db.packages@.len() {
        match spec_find_property(db.packages@[p as int].properties@, name) {
            Some(j) => Some(db.packages@[p as int].properties@[j].kind),
            None => None,
        }
    } else {
        None
    }
}

/// Whether package `p` and the packages concatenated to it have no properties.
pub open spec fn spec_package_empty(db: Database, p: usize) -> bool {
    p < db.packages@.len() && db.packages@[p as int].properties@.len() == 0
        && forall|i: int| 0 <= i < db.packages@[p as int].concats@.len() ==> {
            let c = #[trigger] db.packages@[p as int].concats@[i];
            c < db.packages@.len() ==> db.packages@[c as int].properties@.len() == 0
        }
}

/// Whether the package named `prefix` is the package named `name` or one
/// that contains it.
pub open spec fn name_prefixes(prefix: Seq<String>, name: Seq<String>) -> bool {
    prefix.len() <= name.len() && forall|i: int| 0 <= i < prefix.len() ==> (#[trigger] prefix[i])@ == name[i]@
}

/// The concatenations of package `out` in `b` are those in `a` followed by
/// packages whose names `names` prefixes.
pub open spec fn concats_extended_by_prefixed(a: Database, b: Database, out: int, names: Seq<String>) -> bool {
    let c0 = a.packages@[out].concats@;
    let c1 = b.packages@[out].concats@;
    &&& c0.len() <= c1.len()
    &&& c1.subrange(0, c0.len() as int) == c0
    &&& forall|j: int| c0.len() <= j < c1.len() ==> #[trigger] c1[j] < b.packages@.len()
        && name_prefixes(names, b.packages@[c1[j] as int].name@)
}

impl DirectiveSubverifier {
    /// Whether package `p` and the packages concatenated to it have no properties.
    fn package_empty(db: &Database, p: usize) -> (r: bool)
        ensures
            r == spec_package_empty(*db, p),
    {
        if p >= db.packages.len() || db.packages[p].properties.len() != 0 {
            return false;
        }
        let concats = &db.packages[p].concats;
        let mut i: usize = 0;
        while i < concats.len()
            invariant
                p < db.packages@.len(),
                concats == &db.packages@[p as int].concats,
                i <= concats@.len(),
                forall|j: int| 0 <= j < i ==> {
                    let c = #[trigger] concats@[j];
                    c < db.packages@.len() ==> db.packages@[c as int].properties@.len() == 0
                },
            decreases concats@.len() - i,
        {
            let c = concats[i];
            if c < db.packages.len() && db.packages[c].properties.len() != 0 {
                return false;
            }
            i = i + 1;
        }
        true
    }

    /// Whether the names `prefix` prefix the names `name`.
    fn prefixes(prefix: &Vec<String>, name: &Vec<String>) -> (r: bool)
        ensures
            r == name_prefixes(prefix@, name@),
    {
        if prefix.len() > name.len() {
            return false;
        }
        let mut i: usize = 0;
        while i < prefix.len()
            invariant
                i <= prefix@.len(),
                prefix@.len() <= name@.len(),
                forall|j: int| 0 <= j < i ==> (#[trigger] prefix@[j])@ == name@[j]@,
            decreases prefix@.len() - i,
        {
            if prefix[i] != name[i] {
                return false;
            }
            i = i + 1;
        }
        true
    }

    /// Defines an alias named `name` standing for `kind` in scope `scope`;
    /// a name the scope already defines is a definition conflict, and then
    /// nothing is defined.
    fn define_alias(verifier: &mut Subverifier, scope: usize, name: &String, loc: Location, kind: PropertyKind) -> (r: Option<usize>)
        requires
            scope < old(verifier).host.scopes@.len(),
        ensures
            final(verifier).step(*old(verifier)),
            final(verifier).host.node_mapping == old(verifier).host.node_mapping,
            final(verifier).host.scopes@.len() == old(verifier).host.scopes@.len(),
            match spec_find_property(old(verifier).host.scopes@[scope as int].properties@, name@) {
                Some(_) => r is None && final(verifier).definition_conflicts@.len() == old(verifier).definition_conflicts@.len() + 1,
                None => r == Some(old(verifier).host.scopes@[scope as int].properties@.len() as usize)
                    && final(verifier).host.scopes@[scope as int].properties@ == old(verifier).host.scopes@[scope as int].properties@.push(
                        Property { name: *name, kind, has_capture: false, location: Some(loc) }),
            },
    {
        let ghost start = *verifier;
        let prop = Property { name: name.clone(), kind, has_capture: false, location: Some(loc) };
        match find_property(&verifier.host.scopes[scope].properties, name) {
            Some(i) => {
                let prev = verifier.host.scopes[scope].properties[i].clone_property();
                verifier.handle_definition_conflict(&prev, &prop);
                None
            },
            None => {
                let i = verifier.host.scopes[scope].properties.len();
                verifier.host.add_scope_property(scope, prop);
                proof { lemma_scope_properties_step(start, *verifier, scope as int); }
                Some(i)
            },
        }
    }

    /// Resolves the alias at index `i` of scope `s` to the property `name`
    /// of package `p`; an alias of an undefined property is an error.
    fn resolve_alias(verifier: &mut Subverifier, s: usize, i: usize, p: usize, name: &String, ploc: Location)
        requires
            s < old(verifier).host.scopes@.len(),
            i < old(verifier).host.scopes@[s as int].properties@.len(),
        ensures
            final(verifier).step(*old(verifier)),
            final(verifier).phase_of_drtv == old(verifier).phase_of_drtv,
            match spec_alias_target(old(verifier).host, p, name@) {
                Some(k) => final(verifier).host.scopes@[s as int].properties@[i as int].kind == k
                    && final(verifier).host.diagnostics == old(verifier).host.diagnostics,
                None => final(verifier).host.scopes@[s as int].properties@[i as int].kind == spec_invalid_alias()
                    && final(verifier).spec_has_error_at(ploc),
            },
    {
        let ghost start = *verifier;
        let target = if p < verifier.host.packages.len() {
            match find_property(&verifier.host.packages[p].properties, name) {
                Some(j) => Some(clone_property_kind(&verifier.host.packages[p].properties[j].kind)),
                None => None,
            }
        } else {
            None
        };
        match target {
            Some(k) => {
                verifier.host.set_property_kind(s, i, k);
                proof { lemma_scope_properties_step(start, *verifier, s as int); }
            },
            None => {
                verifier.add_verify_error(&ploc, DiagnosticKind::ImportOfUndefined);
                let ghost s1 = *verifier;
                verifier.host.set_property_kind(s, i, PropertyKind::Variable {
                    static_type: Ty::Invalidation, read_only: true, write_only: false, constant: None,
                });
                proof {
                    lemma_scope_properties_step(s1, *verifier, s as int);
                    lemma_step_trans(start, s1, *verifier);
                    crate::subverifier::lemma_error_at_preserved(s1.host.diagnostics@, verifier.host.diagnostics@, ploc.first_offset);
                }
            },
        }
    }

    /// Verifies an import with an alias, `import A = p.q.x;`. Alpha defines
    /// the alias in the hoisting scope, standing for an unresolved
    /// property; Beta resolves it to the property of the package, and
    /// reports an import of an undefined property. An alias of a whole
    /// package (`p.q.*`, `p.q.**`) defines no property; its package must not
    /// be empty.
    pub(crate) fn verify_import_alias_directive(verifier: &mut Subverifier, drtv: &Directive) -> (r: Result<(), DeferError>)
        requires
            old(verifier).scope is Some,
            drtv.kind is Import,
        ensures
            final(verifier).step(*old(verifier)),
            is_finished(*old(verifier), drtv.id) ==> *final(verifier) == *old(verifier) && r is Ok,
            !old(verifier).phase_of_drtv@.contains_key(drtv.id) || old(verifier).phase_of_drtv@[drtv.id] == VerifierPhase::Alpha
                ==> r is Err && final(verifier).phase_of_drtv@[drtv.id] == VerifierPhase::Beta,
            r is Ok ==> is_finished(*final(verifier), drtv.id),
    {
        let ghost start = *verifier;
        let phase = verifier.lazy_init_drtv_phase(drtv, VerifierPhase::Alpha);
        if phase == VerifierPhase::Finished {
            return Ok(());
        }
        let (names, ploc, specifier, alias) = match &drtv.kind {
            DirectiveKind::Import { package_name, package_location, specifier, alias } => (package_name, *package_location, specifier, alias),
            _ => { proof { assert(false); } return Ok(()); },
        };
        let ghost s0 = *verifier;
        if phase == VerifierPhase::Alpha {
            if let (Some((alias_name, alias_loc)), ImportSpecifier::Identifier(_, _)) = (alias, specifier) {
                if let Some(h) = verifier.search_hoist_scope() {
                    let i = Self::define_alias(verifier, h, alias_name, *alias_loc, PropertyKind::Variable {
                        static_type: Ty::Unresolved, read_only: true, write_only: false, constant: None,
                    });
                    let ghost s1 = *verifier;
                    match i {
                        Some(i) => verifier.map_node(drtv.id, Some(Entity::PropertyReference {
                            base: ReferenceBase::Scope { scope: h, index: i },
                            name: alias_name.clone(),
                            property: Box::new(PropertyKind::Variable {
                                static_type: Ty::Unresolved, read_only: true, write_only: false, constant: None,
                            }),
                        })),
                        None => verifier.map_node(drtv.id, None),
                    }
                    proof { lemma_step_trans(s0, s1, *verifier); }
                }
            }
            verifier.set_drtv_phase(drtv, VerifierPhase::Beta);
            return Err(DeferError);
        }
        let p = verifier.host.package_or_create(names);
        let ghost s2 = *verifier;
        match specifier {
            ImportSpecifier::Identifier(n, _) => {
                if let Some((s, i)) = crate::function_definition::definition_slot(verifier, drtv.id) {
                    Self::resolve_alias(verifier, s, i, p, n, ploc);
                }
            },
            ImportSpecifier::Wildcard => {
                if Self::package_empty(&verifier.host, p) {
                    verifier.add_warning(&ploc, DiagnosticKind::EmptyPackage);
                }
            },
            ImportSpecifier::Recursive => {
                if !Self::package_tree_nonempty(&verifier.host, names) {
                    verifier.add_warning(&ploc, DiagnosticKind::EmptyPackage);
                }
            },
        }
        proof { lemma_step_trans(s0, s2, *verifier); }
        verifier.set_drtv_phase(drtv, VerifierPhase::Finished);
        Ok(())
    }

    /// Verifies a package concatenation in a package. `p.q.x` defines an
    /// alias of the property `x` of package `p.q` in the hoisting scope,
    /// resolved at once if the package has it, and otherwise in Beta, where
    /// an undefined property is reported. `p.q.*` concatenates package `p.q`
    /// to the package the directive is in, and `p.q.**` also the packages
    /// `p.q` contains; Beta reports an empty concatenation. Concatenating a
    /// package that contains the package the directive is in is an error.
    pub(crate) fn verify_package_concat_drtv(verifier: &mut Subverifier, drtv: &Directive) -> (r: Result<(), DeferError>)
        requires
            old(verifier).scope is Some,
            drtv.kind is PackageConcat,
        ensures
            final(verifier).step(*old(verifier)),
            is_finished(*old(verifier), drtv.id) ==> *final(verifier) == *old(verifier) && r is Ok,
            r is Ok ==> is_finished(*final(verifier), drtv.id),
    {
        let ghost start = *verifier;
        let phase = verifier.lazy_init_drtv_phase(drtv, VerifierPhase::Alpha);
        if phase == VerifierPhase::Finished {
            return Ok(());
        }
        let (names, ploc, specifier) = match &drtv.kind {
            DirectiveKind::PackageConcat { package_name, package_location, specifier } => (package_name, *package_location, specifier),
            _ => { proof { assert(false); } return Ok(()); },
        };
        let ghost s0 = *verifier;
        let p = verifier.host.package_or_create(names);
        let ghost s1 = *verifier;
        proof { lemma_step_trans(start, s0, s1); }
        if phase == VerifierPhase::Alpha {
            let finished = Self::package_concat_alpha(verifier, drtv.id, p, names, ploc, specifier);
            proof { lemma_step_trans(start, s1, *verifier); }
            if finished {
                verifier.set_drtv_phase(drtv, VerifierPhase::Finished);
                return Ok(());
            }
            verifier.set_drtv_phase(drtv, VerifierPhase::Beta);
            return Err(DeferError);
        }
        match specifier {
            ImportSpecifier::Identifier(n, _) => {
                if let Some((s, i)) = crate::function_definition::definition_slot(verifier, drtv.id) {
                    Self::resolve_alias(verifier, s, i, p, n, ploc);
                }
            },
            ImportSpecifier::Wildcard => {
                if Self::package_empty(&verifier.host, p) {
                    verifier.add_warning(&ploc, DiagnosticKind::EmptyPackage);
                }
            },
            ImportSpecifier::Recursive => {
                if !Self::package_tree_nonempty(&verifier.host, names) {
                    verifier.add_warning(&ploc, DiagnosticKind::EmptyPackage);
                }
            },
        }
        proof { lemma_step_trans(start, s1, *verifier); }
        verifier.set_drtv_phase(drtv, VerifierPhase::Finished);
        Ok(())
    }

    /// The first phase of a package concatenation of package `p`; whether
    /// the directive is finished already.
    fn package_concat_alpha(verifier: &mut Subverifier, id: u64, p: usize, names: &Vec<String>, ploc: Location,
        specifier: &ImportSpecifier) -> (finished: bool)
        requires
            old(verifier).scope is Some,
            p < old(verifier).host.packages@.len(),
        ensures
            final(verifier).step(*old(verifier)),
            specifier matches ImportSpecifier::Identifier(n, _)
                && spec_find_property(old(verifier).host.packages@[p as int].properties@, n@) is Some ==> finished,
            specifier is Identifier && !finished ==> final(verifier).is_verified(id),
            specifier is Wildcard && !finished ==> exists|out: int| 0 <= out < old(verifier).host.packages@.len()
                && #[trigger] final(verifier).host.packages@[out].concats@ == old(verifier).host.packages@[out].concats@.push(p),
            specifier is Recursive && !finished ==> exists|out: int| 0 <= out < old(verifier).host.packages@.len()
                && concats_extended_by_prefixed(old(verifier).host, final(verifier).host, out, names@),
    {
        let ghost start = *verifier;
        let h = match verifier.search_hoist_scope() {
            Some(h) => h,
            None => return true,
        };
        match specifier {
            ImportSpecifier::Identifier(n, nloc) => {
                let target = match find_property(&verifier.host.packages[p].properties, n) {
                    Some(j) => Some(clone_property_kind(&verifier.host.packages[p].properties[j].kind)),
                    None => None,
                };
                let resolved = target.is_some();
                let kind = match target {
                    Some(k) => k,
                    None => PropertyKind::Variable { static_type: Ty::Unresolved, read_only: true, write_only: false, constant: None },
                };
                let property = clone_property_kind(&kind);
                match Self::define_alias(verifier, h, n, *nloc, kind) {
                    Some(i) => {
                        let ghost s1 = *verifier;
                        verifier.map_node(id, Some(Entity::PropertyReference {
                            base: ReferenceBase::Scope { scope: h, index: i },
                            name: n.clone(),
                            property: Box::new(property),
                        }));
                        proof { lemma_step_trans(start, s1, *verifier); }
                        resolved
                    },
                    None => true,
                }
            },
            ImportSpecifier::Wildcard | ImportSpecifier::Recursive => {
                let out = match &verifier.host.scopes[h].kind {
                    ScopeKind::Package { package } => *package,
                    _ => return true,
                };
                if out >= verifier.host.packages.len() {
                    return true;
                }
                if matches!(specifier, ImportSpecifier::Wildcard) {
                    let ghost hb = verifier.host;
                    verifier.host.packages[out].concats.push(p);
                    proof {
                        assert(verifier.host.packages@[out as int].concats@ == hb.packages@[out as int].concats@.push(p));
                        assert(hb == start.host);
                    }
                    return false;
                }
                if Self::prefixes(names, &verifier.host.packages[out].name) {
                    verifier.add_verify_error(&ploc, DiagnosticKind::ConcatenatingSelfReferentialPackage);
                    return true;
                }
                let ghost h0 = verifier.host;
                proof {
                    assert(h0.packages@[out as int].concats@.subrange(0, h0.packages@[out as int].concats@.len() as int)
                        =~= h0.packages@[out as int].concats@);
                }
                let mut k: usize = 0;
                while k < verifier.host.packages.len()
                    invariant
                        verifier.step(start),
                        out < verifier.host.packages@.len(),
                        verifier.host.packages@.len() == h0.packages@.len(),
                        h0.packages@.len() == start.host.packages@.len(),
                        forall|j: int| 0 <= j < h0.packages@.len() ==> (#[trigger] verifier.host.packages@[j]).name == h0.packages@[j].name,
                        concats_extended_by_prefixed(h0, verifier.host, out as int, names@),
                        h0 == start.host,
                    decreases verifier.host.packages@.len() - k,
                {
                    if Self::prefixes(names, &verifier.host.packages[k].name) {
                        let ghost hb = verifier.host;
                        verifier.host.packages[out].concats.push(k);
                        proof {
                            let c0 = h0.packages@[out as int].concats@;
                            let c1 = verifier.host.packages@[out as int].concats@;
                            assert(c1 == hb.packages@[out as int].concats@.push(k));
                            assert forall|j: int| 0 <= j < h0.packages@.len() implies (#[trigger] verifier.host.packages@[j]).name == h0.packages@[j].name by {
                                if j != out { assert(verifier.host.packages@[j] == hb.packages@[j]); }
                            }
                            assert(c1.subrange(0, c0.len() as int) =~= c0);
                            assert forall|j: int| c0.len() <= j < c1.len() implies #[trigger] c1[j] < verifier.host.packages@.len()
                                && name_prefixes(names@, verifier.host.packages@[c1[j] as int].name@) by {
                                if j < c1.len() - 1 {
                                    assert(c1[j] == hb.packages@[out as int].concats@[j]);
                                    assert(hb.packages@[out as int].concats@[j] < hb.packages@.len());
                                    assert(verifier.host.packages@[c1[j] as int].name == h0.packages@[c1[j] as int].name);
                                    assert(hb.packages@[c1[j] as int].name == h0.packages@[c1[j] as int].name);
                                } else {
                                    assert(c1[j] == k);
                                    assert(verifier.host.packages@[k as int].name == h0.packages@[k as int].name);
                                    assert(hb.packages@[k as int].name == h0.packages@[k as int].name);
                                }
                            }
                        }
                    }
                    k = k + 1;
                }
                false
            },
        }
    }
}

} // verus!
