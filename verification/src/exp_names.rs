//! Verification of names: qualified identifiers, configuration constants,
//! and member accesses, including names that a package name shadows.
use vstd::prelude::*;
use vstd::string::StringExecFns;
use crate::ast::{Expression, ExpressionKind, Location, QualifiedIdentifier, QualifiedIdentifierIdentifier};
use crate::diagnostics::DiagnosticKind;
use crate::semantics::{Ty, Entity, NumberValue, Import, ScopeKind, ReferenceBase, Database};
use crate::subverifier::{Subverifier, VerifierExpressionContext, DeferError, spec_post_process, default_context, lemma_keeps_error, reported, lemma_reported_by_add, lemma_reported_widen};
use crate::resolution::{PropertyLookupKey, PropertyLookupError, ImportLookup, spec_lookup_in_scope_chain, spec_lookup_in_object, spec_result_defers, spec_lookup_error, spec_find_property, spec_property_reference, first_named, find_property, property_reference};
use crate::exp::{ExpSubverifier, spec_literal_integer, lemma_results_stable, lemma_step_trans};

verus! {

broadcast use vstd::std_specs::hash::group_hash_axioms;

/// `i` is the first index of `entries` whose key is `name`.
pub open spec fn first_key<V>(entries: Seq<(String, V)>, name: Seq<char>, i: int) -> bool {
    &&& 0 <= i < entries.len()
    &&& entries[i].0@ == name
    &&& forall|j: int| 0 <= j < i ==> (#[trigger] entries[j]).0@ != name
}

/// The first index of `entries` whose key is `name`.
pub open spec fn spec_find_key<V>(entries: Seq<(String, V)>, name: Seq<char>) -> Option<int> {
    if exists|i: int| first_key(entries, name, i) {
        Some(choose|i: int| first_key(entries, name, i))
    } else {
        None
    }
}

/// Finds the first entry whose key is `name`.
pub fn find_key<V>(entries: &Vec<(String, V)>, name: &String) -> (r: Option<usize>)
    ensures
        match r {
            Some(i) => spec_find_key(entries@, name@) == Some(i as int),
            None => spec_find_key(entries@, name@) is None,
        },
{
    let mut i: usize = 0;
    while i < entries.len()
        invariant
            i <= entries@.len(),
            forall|j: int| 0 <= j < i ==> (#[trigger] entries@[j]).0@ != name@,
        decreases entries@.len() - i,
    {
        if entries[i].0 == *name {
            proof {
                assert(first_key(entries@, name@, i as int));
                let k = choose|k: int| first_key(entries@, name@, k);
                assert(k == i) by {
                    if k < i {
                        assert(entries@[k].0@ != name@);
                    }
                    if k > i {
                        assert(entries@[i as int].0@ != name@);
                    }
                }
            }
            return Some(i);
        }
        i = i + 1;
    }
    proof {
        assert forall|k: int| !first_key(entries@, name@, k) by {
            if 0 <= k < entries@.len() {
                assert(entries@[k].0@ != name@);
            }
        }
    }
    None
}

/// The whitespace that trimming removes.
pub open spec fn is_ws(c: char) -> bool {
    c == ' ' || c == '\t' || c == '\n' || c == '\r' || c == '\x0B' || c == '\x0C'
}

/// `s` without its leading whitespace.
pub open spec fn trim_start(s: Seq<char>) -> Seq<char>
    decreases s.len(),
{
    if s.len() > 0 && is_ws(s[0]) {
        trim_start(s.subrange(1, s.len() as int))
    } else {
        s
    }
}

/// `s` without its trailing whitespace.
pub open spec fn trim_end(s: Seq<char>) -> Seq<char>
    decreases s.len(),
{
    if s.len() > 0 && is_ws(s.last()) {
        trim_end(s.drop_last())
    } else {
        s
    }
}

/// `s` without its leading and trailing whitespace.
pub open spec fn spec_trim(s: Seq<char>) -> Seq<char> {
    trim_end(trim_start(s))
}

proof fn lemma_trim_start(s: Seq<char>, i: int)
    requires
        0 <= i <= s.len(),
        forall|j: int| 0 <= j < i ==> is_ws(#[trigger] s[j]),
        i == s.len() || !is_ws(s[i]),
    ensures
        trim_start(s) == s.subrange(i, s.len() as int),
    decreases i,
{
    if i == 0 {
        assert(s.subrange(0, s.len() as int) =~= s);
    } else {
        let t = s.subrange(1, s.len() as int);
        assert forall|j: int| 0 <= j < i - 1 implies is_ws(#[trigger] t[j]) by {
            assert(t[j] == s[j + 1]);
        }
        if i - 1 < t.len() {
            assert(t[i - 1] == s[i]);
        }
        lemma_trim_start(t, i - 1);
        assert(t.subrange(i - 1, t.len() as int) =~= s.subrange(i, s.len() as int));
    }
}

proof fn lemma_trim_end(s: Seq<char>, k: int)
    requires
        0 <= k <= s.len(),
        forall|j: int| k <= j < s.len() ==> is_ws(#[trigger] s[j]),
        k == 0 || !is_ws(s[k - 1]),
    ensures
        trim_end(s) == s.subrange(0, k),
    decreases s.len() - k,
{
    if k == s.len() {
        assert(s.subrange(0, k) =~= s);
    } else {
        let t = s.drop_last();
        assert forall|j: int| k <= j < t.len() implies is_ws(#[trigger] t[j]) by {
            assert(t[j] == s[j]);
        }
        if k > 0 {
            assert(t[k - 1] == s[k - 1]);
        }
        lemma_trim_end(t, k);
        assert(t.subrange(0, k) =~= s.subrange(0, k));
    }
}

fn is_ws_exec(c: char) -> (r: bool)
    ensures
        r == is_ws(c),
{
    c == ' ' || c == '\t' || c == '\n' || c == '\r' || c == '\x0B' || c == '\x0C'
}

/// Removes leading and trailing whitespace.
pub fn trim(s: &String) -> (r: String)
    ensures
        r@ == spec_trim(s@),
{
    let text = s.as_str();
    let n = text.unicode_len();
    let mut i: usize = 0;
    while i < n && is_ws_exec(text.get_char(i))
        invariant
            i <= n,
            n == text@.len(),
            text@ == s@,
            forall|j: int| 0 <= j < i ==> is_ws(#[trigger] text@[j]),
        decreases n - i,
    {
        i = i + 1;
    }
    proof {
        lemma_trim_start(s@, i as int);
    }
    let ghost t = s@.subrange(i as int, n as int);
    let mut k: usize = n;
    while k > i && is_ws_exec(text.get_char(k - 1))
        invariant
            i <= k <= n,
            n == text@.len(),
            text@ == s@,
            t == s@.subrange(i as int, n as int),
            forall|j: int| k <= j < n ==> is_ws(#[trigger] text@[j]),
        decreases k - i,
    {
        k = k - 1;
    }
    proof {
        assert forall|j: int| k - i <= j < t.len() implies is_ws(#[trigger] t[j]) by {
            assert(t[j] == s@[j + i]);
        }
        if k > i {
            assert(t[k - i - 1] == s@[k - 1]);
        }
        lemma_trim_end(t, k - i);
        assert(t.subrange(0, k - i) =~= s@.subrange(i as int, k as int));
    }
    String::from_str(text.substring_char(i, k))
}

/// The constant that the text of a configuration constant expands to:
/// `true`, `false`, `Infinity`, `NaN` and integer literals.
pub open spec fn spec_config_value(t: Seq<char>) -> Option<Entity> {
    if t == seq!['t', 'r', 'u', 'e'] {
        Some(Entity::BooleanConstant { value: true, ty: Ty::Boolean })
    } else if t == seq!['f', 'a', 'l', 's', 'e'] {
        Some(Entity::BooleanConstant { value: false, ty: Ty::Boolean })
    } else if t == seq!['I', 'n', 'f', 'i', 'n', 'i', 't', 'y'] {
        Some(Entity::NumberConstant { value: NumberValue::Real, ty: Ty::Number })
    } else if t == seq!['N', 'a', 'N'] {
        Some(Entity::NumberConstant { value: NumberValue::NaN, ty: Ty::Number })
    } else if spec_literal_integer(vstd::utf8::encode_utf8(t)) is Some {
        Some(Entity::NumberConstant { value: NumberValue::Real, ty: Ty::Number })
    } else {
        None
    }
}

/// What the configuration constant `name` with text `cdata` evaluates to,
/// given the results of earlier evaluations: an earlier result, unless it
/// failed, or the expansion of the trimmed text.
pub open spec fn spec_eval_config(results: Seq<(String, Entity)>, name: Seq<char>, cdata: Seq<char>) -> Option<Entity> {
    match spec_find_key(results, name) {
        Some(i) => if results[i].1 is Invalidation { None } else { Some(results[i].1) },
        None => spec_config_value(spec_trim(cdata)),
    }
}

fn config_value(t: &String) -> (r: Option<Entity>)
    ensures
        r == spec_config_value(t@),
{
    proof {
        reveal_strlit("true");
        reveal_strlit("false");
        reveal_strlit("Infinity");
        reveal_strlit("NaN");
    }
    if *t == String::from_str("true") {
        assert(t@ =~= seq!['t', 'r', 'u', 'e']);
        return Some(Entity::BooleanConstant { value: true, ty: Ty::Boolean });
    }
    if *t == String::from_str("false") {
        assert(t@ =~= seq!['f', 'a', 'l', 's', 'e']);
        return Some(Entity::BooleanConstant { value: false, ty: Ty::Boolean });
    }
    if *t == String::from_str("Infinity") {
        assert(t@ =~= seq!['I', 'n', 'f', 'i', 'n', 'i', 't', 'y']);
        return Some(Entity::NumberConstant { value: NumberValue::Real, ty: Ty::Number });
    }
    if *t == String::from_str("NaN") {
        assert(t@ =~= seq!['N', 'a', 'N']);
        return Some(Entity::NumberConstant { value: NumberValue::NaN, ty: Ty::Number });
    }
    proof {
        assert(t@ != seq!['t', 'r', 'u', 'e']) by {
            if t@ == seq!['t', 'r', 'u', 'e'] { assert(t@ =~= "true"@); }
        }
        assert(t@ != seq!['f', 'a', 'l', 's', 'e']) by {
            if t@ == seq!['f', 'a', 'l', 's', 'e'] { assert(t@ =~= "false"@); }
        }
        assert(t@ != seq!['I', 'n', 'f', 'i', 'n', 'i', 't', 'y']) by {
            if t@ == seq!['I', 'n', 'f', 'i', 'n', 'i', 't', 'y'] { assert(t@ =~= "Infinity"@); }
        }
        assert(t@ != seq!['N', 'a', 'N']) by {
            if t@ == seq!['N', 'a', 'N'] { assert(t@ =~= "NaN"@); }
        }
    }
    if crate::exp::is_integer_literal(t) {
        Some(Entity::NumberConstant { value: NumberValue::Real, ty: Ty::Number })
    } else {
        None
    }
}

/// The name of an expression that is a plain identifier: no qualifier and
/// not an attribute.
pub open spec fn spec_identifier_name(e: Expression) -> Option<String> {
    match e.kind {
        ExpressionKind::QualifiedIdentifier(q) => if q.qualifier is None && !q.attribute {
            match q.id {
                QualifiedIdentifierIdentifier::Id(n, _) => Some(n),
                _ => None,
            }
        } else {
            None
        },
        _ => None,
    }
}

/// The configuration constant name `q::n` that the identifier `q::n` spells.
pub open spec fn spec_inline_constant_name(id: QualifiedIdentifier) -> Option<Seq<char>> {
    match id.qualifier {
        Some(q) => match (spec_identifier_name(*q), id.id) {
            (Some(qn), QualifiedIdentifierIdentifier::Id(ln, _)) => Some(qn@ + seq![':', ':'] + ln@),
            _ => None,
        },
        None => None,
    }
}

/// The configuration constant that the identifier names, with its text.
pub open spec fn spec_inline_constant(v: Subverifier, id: QualifiedIdentifier) -> Option<(Seq<char>, String)> {
    match spec_inline_constant_name(id) {
        Some(n) => match spec_find_key(v.host.config_constants@, n) {
            Some(i) => Some((n, v.host.config_constants@[i].1)),
            None => None,
        },
        None => None,
    }
}

/// The key that a qualified identifier looks up, once verified.
pub open spec fn spec_qid_key(v: Subverifier, id: QualifiedIdentifier) -> Option<PropertyLookupKey> {
    match id.id {
        QualifiedIdentifierIdentifier::Id(n, _) => Some(PropertyLookupKey::LocalName(n)),
        QualifiedIdentifierIdentifier::Brackets(e) => match v.result_of(e.id) {
            Some(k) => Some(PropertyLookupKey::Computed(k)),
            None => None,
        },
    }
}

/// The qualifier and key of a verified qualified identifier; `None` when
/// the qualifier or the bracketed key failed.
pub open spec fn spec_qid_result(v: Subverifier, id: QualifiedIdentifier) -> Option<(Option<Entity>, PropertyLookupKey)> {
    let q: Option<Option<Entity>> = match id.qualifier {
        None => Some(None),
        Some(e) => match v.result_of(e.id) {
            Some(x) => Some(Some(x)),
            None => None,
        },
    };
    match (q, spec_qid_key(v, id)) {
        (Some(q), Some(k)) => Some((q, k)),
        _ => None,
    }
}

/// What an unqualified name resolves to in a scope chain, after
/// post-processing; `None` when it is undefined or ambiguous.
pub open spec fn spec_name_result(v: Subverifier, key: PropertyLookupKey, context: VerifierExpressionContext) -> Option<Entity> {
    match spec_lookup_in_scope_chain(v.host, v.scope, key) {
        Ok(Some(e)) => Some(spec_post_process(v.host.types@, e, context)),
        _ => None,
    }
}

impl ExpSubverifier {
    /// The configuration constant that `id` names, as its name and its text.
    fn filter_inline_constant(verifier: &Subverifier, id: &QualifiedIdentifier) -> (r: Option<(String, String)>)
        ensures
            match r {
                Some((n, c)) => spec_inline_constant(*verifier, *id) == Some((n@, c)),
                None => spec_inline_constant(*verifier, *id) is None,
            },
    {
        let q = match &id.qualifier {
            Some(q) => q,
            None => return None,
        };
        let qn = match &q.kind {
            ExpressionKind::QualifiedIdentifier(qq) => {
                if qq.qualifier.is_some() || qq.attribute {
                    return None;
                }
                match &qq.id {
                    QualifiedIdentifierIdentifier::Id(n, _) => n,
                    _ => return None,
                }
            },
            _ => return None,
        };
        let ln = match &id.id {
            QualifiedIdentifierIdentifier::Id(n, _) => n,
            _ => return None,
        };
        let mut name = qn.clone();
        name.append("::");
        name.append(ln.as_str());
        proof {
            reveal_strlit("::");
            assert(name@ =~= qn@ + seq![':', ':'] + ln@);
        }
        match find_key(&verifier.host.config_constants, &name) {
            Some(i) => Some((name, verifier.host.config_constants[i].1.clone())),
            None => None,
        }
    }

    /// Evaluates the configuration constant `name` whose text is `cdata`,
    /// remembering the result; a failed evaluation is reported.
    pub fn eval_config_constant(verifier: &mut Subverifier, location: &Location, name: String, cdata: String) -> (r: Option<Entity>)
        ensures
            r == spec_eval_config(old(verifier).host.config_constants_result@, name@, cdata@),
            r is None ==> final(verifier).spec_has_error_at(*location)
                && reported(*old(verifier), *final(verifier), *location, DiagnosticKind::CouldNotExpandInlineConstant),
            r is Some ==> final(verifier).reports == old(verifier).reports,
            final(verifier).step(*old(verifier)),
            final(verifier).host.node_mapping == old(verifier).host.node_mapping,
            final(verifier).host.node_invalidation_mapping == old(verifier).host.node_invalidation_mapping,
            final(verifier).host.types == old(verifier).host.types,
            final(verifier).host.config_constants == old(verifier).host.config_constants,
            spec_find_key(old(verifier).host.config_constants_result@, name@) is Some
                ==> final(verifier).host.config_constants_result == old(verifier).host.config_constants_result,
            spec_find_key(old(verifier).host.config_constants_result@, name@) is None
                ==> final(verifier).host.config_constants_result@ == old(verifier).host.config_constants_result@.push(
                    (name, match r { Some(v) => v, None => Entity::Invalidation })),
    {
        if let Some(i) = find_key(&verifier.host.config_constants_result, &name) {
            if verifier.host.config_constants_result[i].1.is_invalidation() {
                let ghost s0 = *verifier;
                verifier.add_verify_error(location, DiagnosticKind::CouldNotExpandInlineConstant);
                proof { lemma_reported_by_add(s0, *verifier, *location, DiagnosticKind::CouldNotExpandInlineConstant); }
                return None;
            }
            return Some(verifier.host.config_constants_result[i].1.clone());
        }
        let t = trim(&cdata);
        match config_value(&t) {
            Some(v) => {
                verifier.host.config_constants_result.push((name, v.clone()));
                Some(v)
            },
            None => {
                verifier.host.config_constants_result.push((name, Entity::Invalidation));
                let ghost mid = *verifier;
                verifier.add_verify_error(location, DiagnosticKind::CouldNotExpandInlineConstant);
                proof { lemma_reported_by_add(mid, *verifier, *location, DiagnosticKind::CouldNotExpandInlineConstant); }
                None
            },
        }
    }

    /// Verifies the qualifier and the key of a qualified identifier: the
    /// qualifier is coerced to `Namespace`, a bracketed key to `String`.
    pub fn verify_qualified_identifier(verifier: &mut Subverifier, id: &QualifiedIdentifier)
        -> (r: Result<Option<(Option<Entity>, PropertyLookupKey)>, DeferError>)
        requires
            old(verifier).scope is Some,
        ensures
            final(verifier).step(*old(verifier)),
            r matches Ok(res) ==> res == spec_qid_result(*final(verifier), *id)
                && (id.qualifier matches Some(q) ==> final(verifier).host.node_mapping@.contains_key(q.id))
                && (id.id matches QualifiedIdentifierIdentifier::Brackets(e) ==> final(verifier).host.node_mapping@.contains_key(e.id)),
            id.qualifier is None && id.id is Id ==> *final(verifier) == *old(verifier),
            qid_operands_verified(*old(verifier), *id) ==> r is Ok && *final(verifier) == *old(verifier),
        decreases id, 0nat,
    {
        let ghost start = *verifier;
        let mut failed = false;
        let mut result_qual: Option<Entity> = None;
        if let Some(q) = &id.qualifier {
            proof {
                assert(decreases_to!(*id => id.qualifier));
            }
            result_qual = verifier.imp_coerce_exp(q, &Ty::Namespace)?;
            if result_qual.is_none() {
                failed = true;
            }
        }
        let ghost mid = *verifier;
        let key = match &id.id {
            QualifiedIdentifierIdentifier::Id(n, _) => Some(PropertyLookupKey::LocalName(n.clone())),
            QualifiedIdentifierIdentifier::Brackets(e) => {
                proof {
                    assert(decreases_to!(*id => id.id));
                }
                let v = verifier.imp_coerce_exp(e, &Ty::String);
                proof {
                    lemma_step_trans(start, mid, *verifier);
                }
                match v? {
                    Some(v) => Some(PropertyLookupKey::Computed(v)),
                    None => {
                        failed = true;
                        None
                    },
                }
            },
        };
        proof {
            lemma_results_stable(mid, *verifier);
        }
        if failed {
            return Ok(None);
        }
        match key {
            Some(k) => Ok(Some((result_qual, k))),
            None => Ok(None),
        }
    }
}

/// The qualifier and the bracketed key, where a qualified identifier has
/// them, have been verified in `v`.
pub open spec fn qid_operands_verified(v: Subverifier, id: QualifiedIdentifier) -> bool {
    &&& match id.qualifier {
        Some(q) => v.is_verified(q.id),
        None => true,
    }
    &&& match id.id {
        QualifiedIdentifierIdentifier::Brackets(e) => v.is_verified(e.id),
        _ => true,
    }
}

/// What a qualified identifier gives as an expression: an inline constant, or what the name resolves to in the scope chain.
pub open spec fn qid_exp_done(old: Subverifier, new: Subverifier, id: QualifiedIdentifier, context: VerifierExpressionContext, res: Option<Entity>) -> bool {
    match spec_inline_constant(old, id) {
        Some((n, c)) => res == spec_eval_config(old.host.config_constants_result@, n, c@)
            && (res is None ==> new.spec_has_error_at(id.location)),
        None => {
            &&& id.qualifier is None ==> match spec_qid_key(new, id) {
                None => res is None,
                Some(key) => if id.attribute {
                    res == Some(Entity::DynamicReference { ty: Ty::Any })
                } else {
                    res == spec_name_result(old, key, context)
                        && (res is None ==> new.spec_has_error_at(id.location))
                        && match spec_lookup_error(spec_lookup_in_scope_chain(old.host, old.scope, key),
                            DiagnosticKind::UndefinedProperty) {
                            Some(k) => reported(old, new, id.location, k),
                            None => true,
                        }
                },
            }
            &&& res is Some ==> spec_qid_result(new, id) is Some
        },
    }
}

impl ExpSubverifier {
    /// Verifies a qualified identifier used as an expression: a
    /// configuration constant `q::n` expands to its value; otherwise the
    /// name is looked up in the scope chain and post-processed, and an
    /// undefined or ambiguous name is reported.
    pub fn verify_qualified_identifier_as_exp(verifier: &mut Subverifier, id: &QualifiedIdentifier, context: &VerifierExpressionContext)
        -> (r: Result<Option<Entity>, DeferError>)
        requires
            old(verifier).scope is Some,
        ensures
            final(verifier).step(*old(verifier)),
            r matches Ok(res) ==> qid_exp_done(*old(verifier), *final(verifier), *id, *context, res),
            qid_operands_verified(*old(verifier), *id) ==> r is Ok,
            spec_inline_constant(*old(verifier), *id) is Some ==> r is Ok,
        decreases id, 1nat,
    {
        if let Some((name, cdata)) = Self::filter_inline_constant(verifier, id) {
            return Ok(Self::eval_config_constant(verifier, &id.location, name, cdata));
        }
        let ghost start = *verifier;
        let qn = Self::verify_qualified_identifier(verifier, id)?;
        let (_qual, key) = match qn {
            None => return Ok(None),
            Some(x) => x,
        };
        if id.attribute {
            return Ok(Some(Entity::DynamicReference { ty: Ty::Any }));
        }
        let ghost mid = *verifier;
        let found = verifier.host.lookup_in_scope_chain(verifier.scope, &key);
        match found {
            Err(PropertyLookupError::AmbiguousReference(_)) => {
                verifier.add_verify_error(&id.location, DiagnosticKind::AmbiguousReference);
                proof {
                    lemma_step_trans(start, mid, *verifier);
                    lemma_reported_by_add(mid, *verifier, id.location, DiagnosticKind::AmbiguousReference);
                    lemma_reported_widen(start, mid, *verifier, *verifier, id.location, DiagnosticKind::AmbiguousReference);
                }
                Ok(None)
            },
            Err(PropertyLookupError::Defer) => Err(DeferError),
            Err(PropertyLookupError::VoidBase) => {
                verifier.add_verify_error(&id.location, DiagnosticKind::AccessOfVoid);
                proof {
                    lemma_step_trans(start, mid, *verifier);
                    lemma_reported_by_add(mid, *verifier, id.location, DiagnosticKind::AccessOfVoid);
                    lemma_reported_widen(start, mid, *verifier, *verifier, id.location, DiagnosticKind::AccessOfVoid);
                }
                Ok(None)
            },
            Err(PropertyLookupError::NullableObject) => {
                verifier.add_verify_error(&id.location, DiagnosticKind::AccessOfNullable);
                proof {
                    lemma_step_trans(start, mid, *verifier);
                    lemma_reported_by_add(mid, *verifier, id.location, DiagnosticKind::AccessOfNullable);
                    lemma_reported_widen(start, mid, *verifier, *verifier, id.location, DiagnosticKind::AccessOfNullable);
                }
                Ok(None)
            },
            Ok(None) => {
                verifier.add_verify_error(&id.location, DiagnosticKind::UndefinedProperty);
                proof {
                    lemma_step_trans(start, mid, *verifier);
                    lemma_reported_by_add(mid, *verifier, id.location, DiagnosticKind::UndefinedProperty);
                    lemma_reported_widen(start, mid, *verifier, *verifier, id.location, DiagnosticKind::UndefinedProperty);
                }
                Ok(None)
            },
            Ok(Some(e)) => {
                verifier.detect_local_capture(&e);
                proof { lemma_step_trans(start, mid, *verifier); }
                Ok(Some(verifier.reference_post_processing(e, context)))
            },
        }
    }
}

/// The name of a qualified identifier that is a plain name.
pub open spec fn spec_qid_name(q: QualifiedIdentifier) -> Option<String> {
    if q.qualifier is None && !q.attribute {
        match q.id {
            QualifiedIdentifierIdentifier::Id(n, _) => Some(n),
            _ => None,
        }
    } else {
        None
    }
}

/// The names of a dot-delimited sequence of plain identifiers, `a.b.c`.
pub open spec fn spec_dot_seq(e: Expression) -> Option<Seq<String>>
    decreases e,
{
    match e.kind {
        ExpressionKind::QualifiedIdentifier(q) => match spec_qid_name(q) {
            Some(n) => Some(seq![n]),
            None => None,
        },
        ExpressionKind::Member { base, identifier } => match (spec_dot_seq(*base), spec_qid_name(identifier)) {
            (Some(s), Some(n)) => Some(s.push(n)),
            _ => None,
        },
        _ => None,
    }
}

/// Whether two lists of names are equal name by name.
pub open spec fn names_eq(a: Seq<String>, b: Seq<String>) -> bool {
    a.len() == b.len() && forall|i: int| 0 <= i < a.len() ==> (#[trigger] a[i])@ == b[i]@
}

/// The property that `seq` names in package `package`: the package's name
/// is `seq` without its last name, which names the property.
pub open spec fn spec_package_candidate(db: Database, package: usize, seq: Seq<String>) -> Option<(usize, int)> {
    if package < db.packages@.len() && names_eq(db.packages@[package as int].name@, seq.drop_last()) {
        match spec_find_property(db.packages@[package as int].properties@, seq.last()@) {
            Some(i) => Some((package, i)),
            None => None,
        }
    } else {
        None
    }
}

/// The property that `seq` names through an import.
pub open spec fn spec_import_candidate(db: Database, imp: Import, seq: Seq<String>) -> Option<(usize, int)> {
    match imp {
        Import::PackageWildcard { package } => spec_package_candidate(db, package, seq),
        Import::PackageRecursive { package } => spec_package_candidate(db, package, seq),
        Import::PackageProperty { package, name } => if name@ == seq.last()@ {
            spec_package_candidate(db, package, seq)
        } else {
            None
        },
    }
}

/// Adds one candidate to a lookup: two different candidates are ambiguous.
pub open spec fn add_candidate(prev: ImportLookup, c: Option<(usize, int)>) -> ImportLookup {
    match c {
        None => prev,
        Some((p, i)) => match prev {
            ImportLookup::NotFound => ImportLookup::Found(p, i as usize),
            ImportLookup::Found(q, j) => if q == p && j == i { prev } else { ImportLookup::Ambiguous },
            ImportLookup::Ambiguous => ImportLookup::Ambiguous,
        },
    }
}

/// The candidates that the imports `imps` give for `seq`, after `init`.
pub open spec fn spec_shadow_imports(db: Database, imps: Seq<Import>, seq: Seq<String>, init: ImportLookup) -> ImportLookup
    decreases imps.len(),
{
    if imps.len() == 0 {
        init
    } else {
        add_candidate(spec_shadow_imports(db, imps.drop_last(), seq, init), spec_import_candidate(db, imps.last(), seq))
    }
}

/// What `seq` names as a package-qualified name in scope `s`: through the
/// package that the scope is, and through the scope's imports.
pub open spec fn spec_shadow_in_scope(db: Database, s: usize, seq: Seq<String>) -> ImportLookup {
    let scope = db.scopes@[s as int];
    let init = match scope.kind {
        ScopeKind::Package { package } => add_candidate(ImportLookup::NotFound, spec_package_candidate(db, package, seq)),
        _ => ImportLookup::NotFound,
    };
    spec_shadow_imports(db, scope.imports@, seq, init)
}

/// What `seq` names as a package-qualified name in the chain of `scope`,
/// walking at most `fuel` scopes: `Err(())` when it is ambiguous.
pub open spec fn spec_shadow_chain(db: Database, scope: Option<usize>, seq: Seq<String>, fuel: nat) -> Result<Option<Entity>, ()>
    decreases fuel,
{
    if fuel == 0 {
        Ok(None)
    } else {
        match scope {
            None => Ok(None),
            Some(s) => if s >= db.scopes@.len() {
                Ok(None)
            } else {
                match spec_shadow_in_scope(db, s, seq) {
                    ImportLookup::NotFound => spec_shadow_chain(db, db.scopes@[s as int].parent, seq, (fuel - 1) as nat),
                    ImportLookup::Found(p, i) => Ok(Some(spec_property_reference(ReferenceBase::Fixture,
                        db.packages@[p as int].properties@[i as int]))),
                    ImportLookup::Ambiguous => Err(()),
                }
            },
        }
    }
}

/// What a member expression `a.b.c` names when `a.b` is a package name that
/// shadows other meanings of `a`.
pub open spec fn spec_package_shadowing(v: Subverifier, e: Expression) -> Result<Option<Entity>, ()> {
    match spec_dot_seq(e) {
        Some(seq) => spec_shadow_chain(v.host, v.scope, seq, v.host.scopes@.len()),
        None => Ok(None),
    }
}

proof fn lemma_dot_seq_nonempty(e: Expression)
    ensures
        spec_dot_seq(e) matches Some(s) ==> s.len() >= 1,
    decreases e,
{
    if let ExpressionKind::Member { base, .. } = e.kind {
        lemma_dot_seq_nonempty(*base);
    }
}

proof fn lemma_shadow_found(db: Database, imps: Seq<Import>, seq: Seq<String>, init: ImportLookup)
    requires
        init matches ImportLookup::Found(p, i) ==> p < db.packages@.len() && i < db.packages@[p as int].properties@.len(),
    ensures
        spec_shadow_imports(db, imps, seq, init) matches ImportLookup::Found(p, i) ==> p < db.packages@.len()
            && i < db.packages@[p as int].properties@.len(),
    decreases imps.len(),
{
    if imps.len() > 0 {
        lemma_shadow_found(db, imps.drop_last(), seq, init);
        lemma_candidate_bound(db, imps.last(), seq);
    }
}

proof fn lemma_candidate_bound(db: Database, imp: Import, seq: Seq<String>)
    ensures
        spec_import_candidate(db, imp, seq) matches Some((p, i)) ==> p < db.packages@.len()
            && 0 <= i < db.packages@[p as int].properties@.len(),
{
    let package = match imp {
        Import::PackageWildcard { package } => package,
        Import::PackageRecursive { package } => package,
        Import::PackageProperty { package, .. } => package,
    };
    lemma_package_candidate_bound(db, package, seq);
}

proof fn lemma_package_candidate_bound(db: Database, package: usize, seq: Seq<String>)
    ensures
        spec_package_candidate(db, package, seq) matches Some((p, i)) ==> p < db.packages@.len()
            && 0 <= i < db.packages@[p as int].properties@.len(),
{
    if package < db.packages@.len() {
        let props = db.packages@[package as int].properties@;
        if exists|i: int| first_named(props, seq.last()@, i) {
            let i = choose|i: int| first_named(props, seq.last()@, i);
            assert(first_named(props, seq.last()@, i));
        }
    }
}

fn add_candidate_exec(prev: ImportLookup, c: Option<(usize, usize)>) -> (r: ImportLookup)
    ensures
        r == add_candidate(prev, match c { Some((p, i)) => Some((p, i as int)), None => None }),
{
    match c {
        None => prev,
        Some((p, i)) => match prev {
            ImportLookup::NotFound => ImportLookup::Found(p, i),
            ImportLookup::Found(q, j) => if q == p && j == i { ImportLookup::Found(q, j) } else { ImportLookup::Ambiguous },
            ImportLookup::Ambiguous => ImportLookup::Ambiguous,
        },
    }
}

impl ExpSubverifier {
    /// The names of a dot-delimited sequence of plain identifiers.
    fn dot_delimited_id_sequence(exp: &Expression) -> (r: Option<Vec<String>>)
        ensures
            match r {
                Some(v) => spec_dot_seq(*exp) == Some(v@),
                None => spec_dot_seq(*exp) is None,
            },
        decreases exp,
    {
        match &exp.kind {
            ExpressionKind::QualifiedIdentifier(q) => {
                if q.qualifier.is_some() || q.attribute {
                    return None;
                }
                match &q.id {
                    QualifiedIdentifierIdentifier::Id(n, _) => {
                        let mut v: Vec<String> = Vec::new();
                        v.push(n.clone());
                        proof { assert(v@ =~= seq![*n]); }
                        Some(v)
                    },
                    _ => None,
                }
            },
            ExpressionKind::Member { base, identifier } => {
                let mut v = Self::dot_delimited_id_sequence(base)?;
                if identifier.qualifier.is_some() || identifier.attribute {
                    return None;
                }
                match &identifier.id {
                    QualifiedIdentifierIdentifier::Id(n, _) => {
                        v.push(n.clone());
                        Some(v)
                    },
                    _ => None,
                }
            },
            _ => None,
        }
    }

    /// Whether `name` is `seq` without its last name.
    fn package_name_matches(name: &Vec<String>, seq: &Vec<String>) -> (r: bool)
        requires
            seq@.len() >= 1,
        ensures
            r == names_eq(name@, seq@.drop_last()),
    {
        if name.len() != seq.len() - 1 {
            return false;
        }
        let mut i: usize = 0;
        while i < name.len()
            invariant
                i <= name@.len(),
                name@.len() == seq@.len() - 1,
                forall|j: int| 0 <= j < i ==> (#[trigger] name@[j])@ == seq@.drop_last()[j]@,
            decreases name@.len() - i,
        {
            if name[i] != seq[i] {
                proof { assert(seq@.drop_last()[i as int] == seq@[i as int]); }
                return false;
            }
            proof { assert(seq@.drop_last()[i as int] == seq@[i as int]); }
            i = i + 1;
        }
        true
    }

    fn package_candidate(db: &Database, package: usize, seq: &Vec<String>) -> (r: Option<(usize, usize)>)
        requires
            seq@.len() >= 1,
        ensures
            match r {
                Some((p, i)) => spec_package_candidate(*db, package, seq@) == Some((p, i as int)),
                None => spec_package_candidate(*db, package, seq@) is None,
            },
    {
        if package < db.packages.len() && Self::package_name_matches(&db.packages[package].name, seq) {
            let last = &seq[seq.len() - 1];
            proof { assert(seq@.last() == seq@[seq@.len() - 1]); }
            match find_property(&db.packages[package].properties, last) {
                Some(i) => Some((package, i)),
                None => None,
            }
        } else {
            None
        }
    }

    /// The property that `seq` names through the import `import`.
    fn import_shadowing_package_name(db: &Database, seq: &Vec<String>, import: &Import) -> (r: Option<(usize, usize)>)
        requires
            seq@.len() >= 1,
        ensures
            match r {
                Some((p, i)) => spec_import_candidate(*db, *import, seq@) == Some((p, i as int)),
                None => spec_import_candidate(*db, *import, seq@) is None,
            },
    {
        match import {
            Import::PackageWildcard { package } => Self::package_candidate(db, *package, seq),
            Import::PackageRecursive { package } => Self::package_candidate(db, *package, seq),
            Import::PackageProperty { package, name } => {
                proof { assert(seq@.last() == seq@[seq@.len() - 1]); }
                if *name == seq[seq.len() - 1] {
                    Self::package_candidate(db, *package, seq)
                } else {
                    None
                }
            },
        }
    }

    fn shadow_in_scope(db: &Database, s: usize, seq: &Vec<String>) -> (r: ImportLookup)
        requires
            s < db.scopes@.len(),
            seq@.len() >= 1,
        ensures
            r == spec_shadow_in_scope(*db, s, seq@),
    {
        let scope = &db.scopes[s];
        let mut acc = match &scope.kind {
            ScopeKind::Package { package } => add_candidate_exec(ImportLookup::NotFound, Self::package_candidate(db, *package, seq)),
            _ => ImportLookup::NotFound,
        };
        let ghost init = acc;
        let mut k: usize = 0;
        while k < scope.imports.len()
            invariant
                k <= scope.imports@.len(),
                seq@.len() >= 1,
                scope == &db.scopes@[s as int],
                acc == spec_shadow_imports(*db, scope.imports@.subrange(0, k as int), seq@, init),
                init == (match scope.kind {
                    ScopeKind::Package { package } => add_candidate(ImportLookup::NotFound, spec_package_candidate(*db, package, seq@)),
                    _ => ImportLookup::NotFound,
                }),
            decreases scope.imports@.len() - k,
        {
            proof {
                assert(scope.imports@.subrange(0, k + 1).drop_last() =~= scope.imports@.subrange(0, k as int));
                assert(scope.imports@.subrange(0, k + 1).last() == scope.imports@[k as int]);
            }
            acc = add_candidate_exec(acc, Self::import_shadowing_package_name(db, seq, &scope.imports[k]));
            k = k + 1;
        }
        proof {
            assert(scope.imports@.subrange(0, scope.imports@.len() as int) =~= scope.imports@);
        }
        acc
    }

    /// Resolves a member expression `a.b.c` whose `a.b` is a package name
    /// that shadows other meanings of `a`; an ambiguous name is reported
    /// and left to the ordinary member lookup.
    fn verify_member_exp_pre_package_names(verifier: &mut Subverifier, exp: &Expression) -> (r: Option<Entity>)
        requires
            exp.kind is Member,
        ensures
            match spec_package_shadowing(*old(verifier), *exp) {
                Ok(Some(e)) => r == Some(e) && *final(verifier) == *old(verifier),
                Ok(None) => r is None && *final(verifier) == *old(verifier),
                Err(()) => r is None && final(verifier).spec_error_added(*old(verifier),
                    exp.kind->Member_identifier.location, DiagnosticKind::AmbiguousReference, false)
                    && final(verifier).spec_has_error_at(exp.kind->Member_identifier.location),
            },
            final(verifier).step(*old(verifier)),
    {
        let seq = match Self::dot_delimited_id_sequence(exp) {
            Some(s) => s,
            None => return None,
        };
        proof { lemma_dot_seq_nonempty(*exp); }
        let mut cur = verifier.scope;
        let mut fuel: usize = verifier.host.scopes.len();
        while fuel > 0
            invariant
                fuel <= verifier.host.scopes@.len(),
                seq@.len() >= 1,
                spec_dot_seq(*exp) == Some(seq@),
                *verifier == *old(verifier),
                exp.kind is Member,
                spec_package_shadowing(*verifier, *exp) == spec_shadow_chain(verifier.host, cur, seq@, fuel as nat),
            decreases fuel,
        {
            let s = match cur {
                None => return None,
                Some(s) => s,
            };
            if s >= verifier.host.scopes.len() {
                return None;
            }
            let found = Self::shadow_in_scope(&verifier.host, s, &seq);
            proof {
                let scope = verifier.host.scopes@[s as int];
                let init = match scope.kind {
                    ScopeKind::Package { package } => add_candidate(ImportLookup::NotFound,
                        spec_package_candidate(verifier.host, package, seq@)),
                    _ => ImportLookup::NotFound,
                };
                if let ScopeKind::Package { package } = scope.kind {
                    lemma_package_candidate_bound(verifier.host, package, seq@);
                }
                lemma_shadow_found(verifier.host, scope.imports@, seq@, init);
            }
            match found {
                ImportLookup::NotFound => {},
                ImportLookup::Found(p, i) => {
                    return Some(property_reference(ReferenceBase::Fixture, &verifier.host.packages[p].properties[i]));
                },
                ImportLookup::Ambiguous => {
                    let loc = match &exp.kind {
                        ExpressionKind::Member { identifier, .. } => identifier.location,
                        _ => exp.location,
                    };
                    assert(loc == exp.kind->Member_identifier.location);
                    assert(spec_package_shadowing(*verifier, *exp) is Err);
                    verifier.add_verify_error(&loc, DiagnosticKind::AmbiguousReference);
                    return None;
                },
            }
            cur = verifier.host.scopes[s].parent;
            fuel = fuel - 1;
        }
        None
    }
}

/// The result of a member access `b.id` on the verified base `b` with the
/// key `key`, after post-processing; `None` when the lookup fails.
pub open spec fn spec_member_result(v: Subverifier, b: Entity, key: PropertyLookupKey, context: VerifierExpressionContext) -> Option<Entity> {
    match spec_lookup_in_object(v.host.types@, b, key) {
        Ok(Some(e)) => Some(spec_post_process(v.host.types@, e, context)),
        _ => None,
    }
}

/// What a member expression `o.x` gives.
pub open spec fn member_exp_done(old: Subverifier, new: Subverifier, exp: Expression, context: VerifierExpressionContext, res: Option<Entity>) -> bool {
    ({
        let id = exp.kind->Member_identifier;
        match spec_package_shadowing(old, exp) {
            Ok(Some(e)) => res == Some(e) && new == old,
            sh => {
                &&& sh is Err ==> new.spec_has_error_at(id.location)
                &&& match (new.value_of(exp.kind->Member_base.id), spec_qid_result(new, id)) {
                    (Some(b), Some((_, key))) => if id.attribute {
                        res == Some(Entity::DynamicReference { ty: Ty::Any })
                    } else {
                        res == spec_member_result(new, b, key, context)
                            && (res is None ==> new.spec_has_error_at(id.location))
                            && match spec_lookup_error(spec_lookup_in_object(new.host.types@, b, key),
                                DiagnosticKind::UndefinedPropertyWithStaticType) {
                                Some(k) => reported(old, new, id.location, k),
                                None => true,
                            }
                    },
                    _ => res is None,
                }
            },
        }
    })
}

/// What a computed member expression `o[k]` gives.
pub open spec fn computed_member_exp_done(old: Subverifier, new: Subverifier, exp: Expression, context: VerifierExpressionContext, res: Option<Entity>) -> bool {
    match (new.value_of(exp.kind->ComputedMember_base.id),
        new.value_of(exp.kind->ComputedMember_key.id)) {
        (Some(b), Some(k)) => res == spec_member_result(new, b, PropertyLookupKey::Computed(k), context)
            && (res is None ==> new.spec_has_error_at(exp.kind->ComputedMember_key.location))
            && match spec_lookup_error(spec_lookup_in_object(new.host.types@, b, PropertyLookupKey::Computed(k)),
                DiagnosticKind::UndefinedProperty) {
                Some(kd) => reported(old, new, exp.kind->ComputedMember_key.location, kd),
                None => true,
            },
        _ => res is None,
    }
}

impl ExpSubverifier {
    /// Verifies a member access `base.id`: a package-qualified name first;
    /// otherwise the identifier is looked up in the verified base, and an
    /// access of `void`, of a nullable object or of an undefined property
    /// is reported.
    pub fn verify_member_exp(verifier: &mut Subverifier, exp: &Expression, context: &VerifierExpressionContext)
        -> (r: Result<Option<Entity>, DeferError>)
        requires
            old(verifier).scope is Some,
            exp.kind is Member,
        ensures
            final(verifier).step(*old(verifier)),
            r matches Ok(res) ==> member_exp_done(*old(verifier), *final(verifier), *exp, *context, res),
            old(verifier).is_verified(exp.kind->Member_base.id) && qid_operands_verified(*old(verifier), exp.kind->Member_identifier)
                && !spec_result_defers(old(verifier).value_of(exp.kind->Member_base.id)) ==> r is Ok,
        decreases exp, 1nat,
    {
        let ghost start = *verifier;
        if let Some(r) = Self::verify_member_exp_pre_package_names(verifier, exp) {
            return Ok(Some(r));
        }
        let ghost s1 = *verifier;
        let (base, id) = match &exp.kind {
            ExpressionKind::Member { base, identifier } => (base, identifier),
            _ => { proof { assert(false); } return Ok(None); },
        };
        proof {
            assert(decreases_to!(*exp => exp.kind));
        }
        let b = verifier.verify_expression(base, &default_context());
        proof { lemma_step_trans(start, s1, *verifier); }
        let b = match b? {
            None => {
                let ghost s2 = *verifier;
                let q = Self::verify_qualified_identifier(verifier, id);
                proof {
                    lemma_step_trans(start, s2, *verifier);
                    lemma_results_stable(s2, *verifier);
                    if spec_package_shadowing(start, *exp) is Err {
                        lemma_keeps_error(s1, *verifier, id.location);
                    }
                }
                q?;
                return Ok(None);
            },
            Some(b) => b,
        };
        let ghost s2 = *verifier;
        let qn = Self::verify_qualified_identifier(verifier, id);
        proof {
            lemma_step_trans(start, s2, *verifier);
            lemma_results_stable(s2, *verifier);
            if spec_package_shadowing(start, *exp) is Err {
                lemma_keeps_error(s1, *verifier, id.location);
            }
        }
        let (_qual, key) = match qn? {
            None => return Ok(None),
            Some(x) => x,
        };
        if id.attribute {
            return Ok(Some(Entity::DynamicReference { ty: Ty::Any }));
        }
        let ghost s3 = *verifier;
        let found = verifier.host.lookup_in_object(&b, &key);
        let kind = match found {
            Ok(Some(e)) => return Ok(Some(verifier.reference_post_processing(e, context))),
            Err(PropertyLookupError::Defer) => return Err(DeferError),
            Ok(None) => DiagnosticKind::UndefinedPropertyWithStaticType,
            Err(PropertyLookupError::VoidBase) => DiagnosticKind::AccessOfVoid,
            Err(PropertyLookupError::NullableObject) => DiagnosticKind::AccessOfNullable,
            Err(PropertyLookupError::AmbiguousReference(_)) => DiagnosticKind::AmbiguousReference,
        };
        verifier.add_verify_error(&id.location, kind);
        proof {
            lemma_reported_by_add(s3, *verifier, id.location, kind);
            lemma_step_trans(start, s3, *verifier);
            lemma_reported_widen(start, s3, *verifier, *verifier, id.location, kind);
            lemma_results_stable(s3, *verifier);
            if spec_package_shadowing(start, *exp) is Err {
                lemma_keeps_error(s1, *verifier, id.location);
            }
        }
        Ok(None)
    }

    /// Verifies a computed member access `base[key]`.
    pub fn verify_computed_member_exp(verifier: &mut Subverifier, exp: &Expression, context: &VerifierExpressionContext)
        -> (r: Result<Option<Entity>, DeferError>)
        requires
            old(verifier).scope is Some,
            exp.kind is ComputedMember,
        ensures
            final(verifier).step(*old(verifier)),
            r matches Ok(res) ==> computed_member_exp_done(*old(verifier), *final(verifier), *exp, *context, res),
            old(verifier).is_verified(exp.kind->ComputedMember_base.id) && old(verifier).is_verified(exp.kind->ComputedMember_key.id)
                && !spec_result_defers(old(verifier).value_of(exp.kind->ComputedMember_base.id)) ==> r is Ok,
        decreases exp, 1nat,
    {
        let (base, key) = match &exp.kind {
            ExpressionKind::ComputedMember { base, key } => (base, key),
            _ => { proof { assert(false); } return Ok(None); },
        };
        let ghost start = *verifier;
        let b = verifier.verify_expression(base, &default_context())?;
        let ghost s1 = *verifier;
        let k = verifier.verify_expression(key, &default_context());
        proof {
            lemma_step_trans(start, s1, *verifier);
            lemma_results_stable(s1, *verifier);
        }
        let k = k?;
        let (b, k) = match (b, k) {
            (Some(b), Some(k)) => (b, k),
            _ => return Ok(None),
        };
        let ghost s2 = *verifier;
        let found = verifier.host.lookup_in_object(&b, &PropertyLookupKey::Computed(k));
        let kind = match found {
            Ok(Some(e)) => return Ok(Some(verifier.reference_post_processing(e, context))),
            Err(PropertyLookupError::Defer) => return Err(DeferError),
            Err(PropertyLookupError::VoidBase) => DiagnosticKind::AccessOfVoid,
            Err(PropertyLookupError::NullableObject) => DiagnosticKind::AccessOfNullable,
            _ => DiagnosticKind::UndefinedProperty,
        };
        verifier.add_verify_error(&key.location, kind);
        proof {
            lemma_reported_by_add(s2, *verifier, key.location, kind);
            lemma_step_trans(start, s2, *verifier);
            lemma_reported_widen(start, s2, *verifier, *verifier, key.location, kind);
            lemma_step_trans(start, s2, *verifier);
            lemma_results_stable(s2, *verifier);
        }
        Ok(None)
    }
}

} // verus!
