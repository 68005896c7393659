//! Verification of XML expressions, descendants and filter operations,
//! `super` expressions and optional chaining.
use vstd::prelude::*;
use crate::ast::{Expression, ExpressionKind, XmlElement, XmlContent, XmlTagName, XmlAttributeValue};
use crate::diagnostics::DiagnosticKind;
use crate::semantics::{Ty, TypeDef, Entity, ScopeKind, spec_escape_of_non_nullable, escape_of_non_nullable,
    spec_escape_of_nullable_or_non_nullable, escape_of_nullable_or_non_nullable, spec_includes_null,
    spec_includes_undefined, includes_null, includes_undefined};
use crate::subverifier::{Subverifier, VerifierExpressionContext, DeferError, default_context, warning_at,
    spec_this_type};
use crate::exp_names::qid_operands_verified;
use crate::exp::{ExpSubverifier, spec_literal_type, literal_type, lemma_results_stable, lemma_step_trans};

verus! {

broadcast use vstd::std_specs::hash::group_hash_axioms;

/// Whether `e` is `*` or `Object`.
pub open spec fn is_dynamic(e: Ty) -> bool {
    e == Ty::Any || e == Ty::Object
}

/// The type of what a descendants or filter operation gives of a base of
/// static type `st`: `*` for a dynamic base, `XMLList` for `XML` and
/// `XMLList`; `None` when the operation does not apply.
pub open spec fn spec_xml_operation_type(st: Ty) -> Option<Ty> {
    let e = spec_escape_of_non_nullable(st);
    if is_dynamic(e) {
        Some(Ty::Any)
    } else if e == Ty::Xml || e == Ty::XmlList {
        Some(Ty::XmlList)
    } else {
        None
    }
}

fn xml_operation_type(st: &Ty) -> (r: Option<Ty>)
    ensures
        r == spec_xml_operation_type(*st),
{
    let e = escape_of_non_nullable(st);
    if e.is(Ty::Any) || e.is(Ty::Object) {
        Some(Ty::Any)
    } else if e.is(Ty::Xml) || e.is(Ty::XmlList) {
        Some(Ty::XmlList)
    } else {
        None
    }
}

/// The class that `super` refers to: the class that the class of `this`
/// extends. `None` outside a method, in an interface, or in a class that
/// extends no class.
pub open spec fn spec_super_limit(v: Subverifier) -> Option<Ty> {
    match spec_this_type(v.host.scopes@, v.scope) {
        Some(t) => if v.host.is_interface(t) {
            None
        } else {
            match v.host.def_of(t) {
                Some(TypeDef::Class(c)) => c.extends,
                _ => None,
            }
        },
        None => None,
    }
}

/// The type of the value that `base?.exp` gives to its placeholder: the
/// base's type without `?` or `!`, made non-nullable where it includes
/// `null` or `undefined`.
pub open spec fn spec_placeholder_type(base_st: Ty) -> Ty {
    let e = spec_escape_of_nullable_or_non_nullable(base_st);
    if spec_includes_null(e) || spec_includes_undefined(e) { Ty::NonNullable(Box::new(e)) } else { e }
}

/// The type of `base?.exp` where `exp` has static type `st`.
pub open spec fn spec_chaining_result_type(st: Ty) -> Ty {
    if st == Ty::Object { st } else { Ty::Nullable(Box::new(st)) }
}

/// Whether the expression `e` has been verified in `v`.
pub open spec fn exp_verified(v: Subverifier, e: Expression) -> bool {
    v.host.node_mapping@.contains_key(e.id)
}

/// Whether an XML tag name that is an expression has been verified.
pub open spec fn xml_tag_verified(v: Subverifier, name: XmlTagName) -> bool {
    match name {
        XmlTagName::Expression(e) => exp_verified(v, *e),
        XmlTagName::Name(_) => true,
    }
}

/// Whether an XML attribute value that is an expression has been verified.
pub open spec fn xml_attribute_verified(v: Subverifier, value: XmlAttributeValue) -> bool {
    match value {
        XmlAttributeValue::Expression(e) => exp_verified(v, *e),
        _ => true,
    }
}

/// Every expression embedded in the XML element `elem`, at any depth, has
/// been verified in `v`.
pub open spec fn xml_elem_verified(v: Subverifier, elem: XmlElement) -> bool
    decreases elem,
{
    &&& xml_tag_verified(v, elem.name)
    &&& forall|i: int| 0 <= i < elem.attributes@.len() ==> xml_attribute_verified(v, (#[trigger] elem.attributes@[i]).value)
    &&& match elem.attribute_expression {
        Some(e) => exp_verified(v, *e),
        None => true,
    }
    &&& match elem.content {
        Some(list) => xml_contents_verified(v, list@),
        None => true,
    }
    &&& match elem.closing_name {
        Some(n) => xml_tag_verified(v, n),
        None => true,
    }
}

/// Every expression embedded in the XML contents `list` has been verified
/// in `v`.
pub open spec fn xml_contents_verified(v: Subverifier, list: Seq<XmlContent>) -> bool
    decreases list,
{
    forall|k: int| 0 <= k < list.len() ==> xml_content_verified(v, #[trigger] list[k])
}

/// Every expression embedded in the XML content `c` has been verified in `v`.
pub open spec fn xml_content_verified(v: Subverifier, c: XmlContent) -> bool
    decreases c,
{
    match c {
        XmlContent::Element(elem) => xml_elem_verified(v, elem),
        XmlContent::Expression(e) => exp_verified(v, *e),
        _ => true,
    }
}

/// What has been verified of an XML element stays verified as verification
/// goes on.
pub proof fn lemma_xml_elem_verified_stable(a: Subverifier, b: Subverifier, elem: XmlElement)
    requires
        xml_elem_verified(a, elem),
        b.progress(a),
    ensures
        xml_elem_verified(b, elem),
    decreases elem,
{
    assert forall|i: int| 0 <= i < elem.attributes@.len() implies
        xml_attribute_verified(b, (#[trigger] elem.attributes@[i]).value) by {
        assert(xml_attribute_verified(a, elem.attributes@[i].value));
    }
    if let Some(list) = elem.content {
        assert forall|k: int| 0 <= k < list@.len() implies xml_content_verified(b, #[trigger] list@[k]) by {
            assert(xml_content_verified(a, list@[k]));
            assert(decreases_to!(elem => elem.content));
            assert(decreases_to!(list => list@));
            lemma_xml_content_verified_stable(a, b, list@[k]);
        }
    }
}

/// What has been verified of XML content stays verified as verification
/// goes on.
pub proof fn lemma_xml_content_verified_stable(a: Subverifier, b: Subverifier, c: XmlContent)
    requires
        xml_content_verified(a, c),
        b.progress(a),
    ensures
        xml_content_verified(b, c),
    decreases c,
{
    if let XmlContent::Element(elem) = c {
        lemma_xml_elem_verified_stable(a, b, elem);
    }
}

impl ExpSubverifier {
    /// Verifies the expressions embedded in an XML element: its name, the
    /// values of its attributes, its attribute expression, its content and
    /// its closing name, in that order.
    pub fn verify_xml_elem(verifier: &mut Subverifier, elem: &XmlElement) -> (r: Result<(), DeferError>)
        requires
            old(verifier).scope is Some,
        ensures
            final(verifier).step(*old(verifier)),
            r is Ok ==> xml_elem_verified(*final(verifier), *elem),
            xml_elem_verified(*old(verifier), *elem) ==> r is Ok && *final(verifier) == *old(verifier),
        decreases elem, 0nat,
    {
        let ghost start = *verifier;
        if let XmlTagName::Expression(e) = &elem.name {
            proof { assert(decreases_to!(*elem => elem.name)); }
            verifier.verify_expression(e, &default_context())?;
        }
        let mut i: usize = 0;
        while i < elem.attributes.len()
            invariant
                i <= elem.attributes@.len(),
                start == *old(verifier),
                verifier.step(start),
                verifier.scope is Some,
                xml_tag_verified(*verifier, elem.name),
                forall|j: int| 0 <= j < i ==> xml_attribute_verified(*verifier, (#[trigger] elem.attributes@[j]).value),
                xml_elem_verified(start, *elem) ==> *verifier == start,
            decreases elem.attributes@.len() - i,
        {
            if let XmlAttributeValue::Expression(e) = &elem.attributes[i].value {
                let ghost before = *verifier;
                proof {
                    assert(decreases_to!(*elem => elem.attributes));
                    assert(decreases_to!(elem.attributes => elem.attributes@));
                    assert(decreases_to!(elem.attributes@ => elem.attributes@[i as int]));
                    assert(decreases_to!(elem.attributes@[i as int] => elem.attributes@[i as int].value));
                }
                let v = verifier.verify_expression(e, &default_context());
                proof { lemma_step_trans(start, before, *verifier); }
                v?;
                proof {
                    assert forall|j: int| 0 <= j < i + 1 implies
                        xml_attribute_verified(*verifier, (#[trigger] elem.attributes@[j]).value) by {
                        if j < i {
                            assert(xml_attribute_verified(before, elem.attributes@[j].value));
                        }
                    }
                    if elem.name is Expression {
                        assert(before.host.node_mapping@.contains_key(elem.name->Expression_0.id));
                    }
                }
            }
            i = i + 1;
        }
        let ghost s_attrs = *verifier;
        if let Some(e) = &elem.attribute_expression {
            let ghost before = *verifier;
            proof { assert(decreases_to!(*elem => elem.attribute_expression)); }
            let v = verifier.verify_expression(e, &default_context());
            proof { lemma_step_trans(start, before, *verifier); }
            v?;
        }
        let ghost s_expr = *verifier;
        if let Some(list) = &elem.content {
            let mut k: usize = 0;
            while k < list.len()
                invariant
                    k <= list@.len(),
                    elem.content == Some(*list),
                    start == *old(verifier),
                    verifier.step(start),
                    verifier.step(s_expr),
                    verifier.scope is Some,
                    forall|j: int| 0 <= j < k ==> xml_content_verified(*verifier, #[trigger] list@[j]),
                    xml_elem_verified(start, *elem) ==> *verifier == start,
                decreases list@.len() - k,
            {
                let ghost before = *verifier;
                proof {
                    assert(decreases_to!(*elem => elem.content));
                    assert(decreases_to!(elem.content => elem.content->0));
                    assert(decreases_to!(*list => list@));
                    assert(decreases_to!(list@ => list@[k as int]));
                }
                let v = Self::verify_xml_content(verifier, &list[k]);
                proof { lemma_step_trans(start, before, *verifier); lemma_step_trans(s_expr, before, *verifier); }
                v?;
                proof {
                    assert forall|j: int| 0 <= j < k + 1 implies xml_content_verified(*verifier, #[trigger] list@[j]) by {
                        if j < k {
                            lemma_xml_content_verified_stable(before, *verifier, list@[j]);
                        }
                    }
                }
                k = k + 1;
            }
        }
        let ghost s_content = *verifier;
        if let Some(XmlTagName::Expression(e)) = &elem.closing_name {
            let ghost before = *verifier;
            proof {
                assert(decreases_to!(*elem => elem.closing_name));
                assert(decreases_to!(elem.closing_name => elem.closing_name->0));
            }
            let v = verifier.verify_expression(e, &default_context());
            proof { lemma_step_trans(start, before, *verifier); }
            v?;
        }
        proof {
            assert(xml_elem_verified(*verifier, *elem)) by {
                assert forall|j: int| 0 <= j < elem.attributes@.len() implies
                    xml_attribute_verified(*verifier, (#[trigger] elem.attributes@[j]).value) by {
                    assert(xml_attribute_verified(s_attrs, elem.attributes@[j].value));
                }
                if elem.name is Expression {
                    assert(s_attrs.host.node_mapping@.contains_key(elem.name->Expression_0.id));
                }
                if elem.attribute_expression is Some {
                    assert(s_expr.host.node_mapping@.contains_key(elem.attribute_expression->0.id));
                }
                if elem.content is Some {
                    let list = elem.content->0;
                    assert forall|j: int| 0 <= j < list@.len() implies xml_content_verified(*verifier, #[trigger] list@[j]) by {
                        lemma_xml_content_verified_stable(s_content, *verifier, list@[j]);
                    }
                }
            }
        }
        Ok(())
    }

    /// Verifies the expressions embedded in XML content.
    pub fn verify_xml_content(verifier: &mut Subverifier, content: &XmlContent) -> (r: Result<(), DeferError>)
        requires
            old(verifier).scope is Some,
        ensures
            final(verifier).step(*old(verifier)),
            r is Ok ==> xml_content_verified(*final(verifier), *content),
            xml_content_verified(*old(verifier), *content) ==> r is Ok && *final(verifier) == *old(verifier),
        decreases content, 0nat,
    {
        match content {
            XmlContent::Element(elem) => Self::verify_xml_elem(verifier, elem),
            XmlContent::Expression(exp) => {
                verifier.verify_expression(exp, &default_context())?;
                Ok(())
            },
            _ => Ok(()),
        }
    }

    /// Verifies an XML literal: a value of the context type when that is
    /// `*`, `Object` or `XML`, and of `XML` otherwise.
    pub fn verify_xml_exp(verifier: &mut Subverifier, exp: &Expression, context: &VerifierExpressionContext)
        -> (r: Result<Option<Entity>, DeferError>)
        requires
            old(verifier).scope is Some,
            exp.kind is Xml,
        ensures
            final(verifier).step(*old(verifier)),
            r matches Ok(res) ==> res == Some(Entity::Value { ty: spec_literal_type(*context, Ty::Xml) }),
            r is Ok ==> xml_elem_verified(*final(verifier), exp.kind->Xml_element),
            xml_elem_verified(*old(verifier), exp.kind->Xml_element) ==> r is Ok && *final(verifier) == *old(verifier),
        decreases exp, 1nat,
    {
        let element = match &exp.kind {
            ExpressionKind::Xml { element } => element,
            _ => { proof { assert(false); } return Ok(None); },
        };
        proof { assert(decreases_to!(*exp => exp.kind)); }
        Self::verify_xml_elem(verifier, element)?;
        Ok(Some(Entity::Value { ty: literal_type(context, Ty::Xml) }))
    }

    /// Verifies an XML list literal: a value of the context type when that
    /// is `*`, `Object` or `XMLList`, and of `XMLList` otherwise.
    pub fn verify_xml_list_exp(verifier: &mut Subverifier, exp: &Expression, context: &VerifierExpressionContext)
        -> (r: Result<Option<Entity>, DeferError>)
        requires
            old(verifier).scope is Some,
            exp.kind is XmlList,
        ensures
            final(verifier).step(*old(verifier)),
            r matches Ok(res) ==> res == Some(Entity::Value { ty: spec_literal_type(*context, Ty::XmlList) }),
            r is Ok ==> xml_contents_verified(*final(verifier), exp.kind->XmlList_content@),
            xml_contents_verified(*old(verifier), exp.kind->XmlList_content@) ==> r is Ok && *final(verifier) == *old(verifier),
        decreases exp, 1nat,
    {
        let list = match &exp.kind {
            ExpressionKind::XmlList { content } => content,
            _ => { proof { assert(false); } return Ok(None); },
        };
        let ghost start = *verifier;
        let mut k: usize = 0;
        while k < list.len()
            invariant
                k <= list@.len(),
                exp.kind is XmlList,
                exp.kind->XmlList_content == *list,
                start == *old(verifier),
                verifier.step(start),
                verifier.scope is Some,
                forall|j: int| 0 <= j < k ==> xml_content_verified(*verifier, #[trigger] list@[j]),
                xml_contents_verified(start, list@) ==> *verifier == start,
            decreases list@.len() - k,
        {
            let ghost before = *verifier;
            proof {
                assert(decreases_to!(*exp => exp.kind));
                assert(decreases_to!(exp.kind => exp.kind->XmlList_content));
                assert(decreases_to!(*list => list@));
                assert(decreases_to!(list@ => list@[k as int]));
            }
            let v = Self::verify_xml_content(verifier, &list[k]);
            proof { lemma_step_trans(start, before, *verifier); }
            v?;
            proof {
                assert forall|j: int| 0 <= j < k + 1 implies xml_content_verified(*verifier, #[trigger] list@[j]) by {
                    if j < k {
                        lemma_xml_content_verified_stable(before, *verifier, list@[j]);
                    }
                }
            }
            k = k + 1;
        }
        Ok(Some(Entity::Value { ty: literal_type(context, Ty::XmlList) }))
    }

    /// Verifies a descendants operation `base..id`, which applies to `*`,
    /// `Object`, `XML` and `XMLList`.
    pub fn verify_descendants_exp(verifier: &mut Subverifier, exp: &Expression) -> (r: Result<Option<Entity>, DeferError>)
        requires
            old(verifier).scope is Some,
            exp.kind is Descendants,
        ensures
            final(verifier).step(*old(verifier)),
            r matches Ok(res) ==> match final(verifier).value_of(exp.kind->Descendants_base.id) {
                None => res is None,
                Some(b) => match spec_xml_operation_type(b.spec_static_type()) {
                    Some(t) => res == Some(Entity::Value { ty: t }),
                    None => res is None && final(verifier).spec_has_error_at(exp.kind->Descendants_identifier.location),
                },
            },
            old(verifier).is_verified(exp.kind->Descendants_base.id)
                && qid_operands_verified(*old(verifier), exp.kind->Descendants_identifier) ==> r is Ok,
        decreases exp, 1nat,
    {
        let (base, id) = match &exp.kind {
            ExpressionKind::Descendants { base, identifier } => (base, identifier),
            _ => { proof { assert(false); } return Ok(None); },
        };
        proof { assert(decreases_to!(*exp => exp.kind)); }
        let ghost start = *verifier;
        let b = verifier.verify_expression(base, &default_context())?;
        let ghost s1 = *verifier;
        let q = Self::verify_qualified_identifier(verifier, id);
        proof {
            lemma_step_trans(start, s1, *verifier);
            lemma_results_stable(s1, *verifier);
        }
        q?;
        let b = match b {
            None => return Ok(None),
            Some(b) => b,
        };
        match xml_operation_type(&b.static_type()) {
            Some(t) => Ok(Some(Entity::Value { ty: t })),
            None => {
                let ghost s2 = *verifier;
                verifier.add_verify_error(&id.location, DiagnosticKind::InapplicableDescendants);
                proof {
                    lemma_step_trans(start, s2, *verifier);
                    lemma_results_stable(s2, *verifier);
                }
                Ok(None)
            },
        }
    }

    /// Verifies a filter operation `base.(test)`: the test is verified in a
    /// new filter scope over the base, which the result refers to.
    pub fn verify_filter_exp(verifier: &mut Subverifier, exp: &Expression) -> (r: Result<Option<Entity>, DeferError>)
        requires
            old(verifier).scope is Some,
            exp.kind is Filter,
        ensures
            final(verifier).step(*old(verifier)),
            r matches Ok(res) ==> match final(verifier).value_of(exp.kind->Filter_base.id) {
                None => res is None,
                Some(b) => match spec_xml_operation_type(b.spec_static_type()) {
                    Some(t) => res matches Some(Entity::FilterValue { scope, ty }) && ty == t
                        && old(verifier).host.scopes@.len() <= scope < final(verifier).host.scopes@.len()
                        && final(verifier).host.scopes@[scope as int].kind == (ScopeKind::Filter { base_type: b.spec_static_type() }),
                    None => res is None && final(verifier).spec_has_error_at(exp.kind->Filter_test.location),
                },
            },
            old(verifier).is_verified(exp.kind->Filter_base.id) && old(verifier).is_verified(exp.kind->Filter_test.id) ==> r is Ok,
        decreases exp, 1nat,
    {
        let (base, test) = match &exp.kind {
            ExpressionKind::Filter { base, test } => (base, test),
            _ => { proof { assert(false); } return Ok(None); },
        };
        proof { assert(decreases_to!(*exp => exp.kind)); }
        let ghost start = *verifier;
        let b = verifier.verify_expression(base, &default_context())?;
        let ghost s1 = *verifier;
        let base_type = match &b {
            Some(b) => b.static_type(),
            None => Ty::Invalidation,
        };
        let outer = verifier.scope;
        let ghost bt = base_type;
        let scope = verifier.host.create_filter_scope(base_type);
        proof {
            assert(scope >= start.host.scopes@.len());
            assert(verifier.step(s1));
            lemma_step_trans(start, s1, *verifier);
        }
        let ghost s2 = *verifier;
        verifier.inherit_and_enter_scope(scope);
        let ghost s3 = *verifier;
        let t = verifier.verify_expression(test, &default_context());
        let ghost s4 = *verifier;
        verifier.exit_scope();
        proof {
            assert(s3.host.scopes@[scope as int].parent == outer);
            assert(s4.host.scopes@[scope as int].parent == outer);
            assert(verifier.scope == outer);
            assert(s2.host.scopes@[scope as int].kind == (ScopeKind::Filter { base_type: bt }));
            assert(verifier.host.scopes@[scope as int].kind == s2.host.scopes@[scope as int].kind);
            assert(verifier.step(s2));
            lemma_step_trans(start, s2, *verifier);
            lemma_step_trans(s1, s2, *verifier);
            lemma_results_stable(s1, *verifier);
        }
        t?;
        let b = match b {
            None => return Ok(None),
            Some(b) => b,
        };
        match xml_operation_type(&b.static_type()) {
            Some(ty) => Ok(Some(Entity::FilterValue { scope, ty })),
            None => {
                let ghost s5 = *verifier;
                verifier.add_verify_error(&test.location, DiagnosticKind::InapplicableFilter);
                proof {
                    lemma_step_trans(start, s5, *verifier);
                    lemma_results_stable(s5, *verifier);
                }
                Ok(None)
            },
        }
    }
}

impl ExpSubverifier {
    /// Verifies a `super` expression: a value of the class that the class of
    /// `this` extends; its object, if given, is coerced to that class.
    pub fn verify_super_exp(verifier: &mut Subverifier, exp: &Expression) -> (r: Result<Option<Entity>, DeferError>)
        requires
            old(verifier).scope is Some,
            exp.kind is Super,
        ensures
            final(verifier).step(*old(verifier)),
            r matches Ok(res) ==> match spec_super_limit(*old(verifier)) {
                Some(l) => res == Some(Entity::Value { ty: l }),
                None => res is None && final(verifier).spec_has_error_at(exp.location),
            },
            (exp.kind->Super_object matches Some(objs) ==> forall|i: int| 0 <= i < objs@.len()
                ==> old(verifier).is_verified((#[trigger] objs@[i]).id)) ==> r is Ok,
        decreases exp, 1nat,
    {
        let object = match &exp.kind {
            ExpressionKind::Super { object } => object,
            _ => { proof { assert(false); } return Ok(None); },
        };
        proof { assert(decreases_to!(*exp => exp.kind)); }
        let ghost start = *verifier;
        let this_type = verifier.this_type();
        let (limit, error) = match this_type {
            None => (None, DiagnosticKind::ASuperExpCanBeUsedOnlyIn),
            Some(t) => match verifier.host.get_def(&t) {
                Some(TypeDef::Interface(_)) => (None, DiagnosticKind::ASuperExpCanBeUsedOnlyIn),
                Some(TypeDef::Class(c)) => (crate::semantics::clone_opt_ty(&c.extends), DiagnosticKind::ASuperExpCanOnlyBeUsedInSubclasses),
                _ => (None, DiagnosticKind::ASuperExpCanOnlyBeUsedInSubclasses),
            },
        };
        proof {
            assert(limit == spec_super_limit(start));
        }
        let limit = match limit {
            None => {
                if let Some(objs) = object {
                    proof { assert(decreases_to!(exp.kind => exp.kind->Super_object)); }
                    verifier.verify_each(objs)?;
                }
                let ghost s1 = *verifier;
                verifier.add_verify_error(&exp.location, error);
                proof { lemma_step_trans(start, s1, *verifier); }
                return Ok(None);
            },
            Some(l) => l,
        };
        if let Some(objs) = object {
            proof { assert(decreases_to!(exp.kind => exp.kind->Super_object)); }
            if objs.len() > 0 {
                let n = objs.len() - 1;
                let mut i: usize = 0;
                while i < n
                    invariant
                        n == objs@.len() - 1,
                        i <= n,
                        exp.kind is Super,
                        exp.kind->Super_object == Some(*objs),
                        start == *old(verifier),
                        verifier.step(start),
                        verifier.scope is Some,
                        (forall|j: int| 0 <= j < objs@.len() ==> start.is_verified((#[trigger] objs@[j]).id)) ==> *verifier == start,
                    decreases n - i,
                {
                    let ghost before = *verifier;
                    proof {
                        assert(decreases_to!(*exp => exp.kind));
                        assert(decreases_to!(exp.kind => exp.kind->Super_object));
                        assert(decreases_to!(exp.kind->Super_object => exp.kind->Super_object->0));
                        assert(decreases_to!(*objs => objs@));
                        assert(decreases_to!(objs@ => objs@[i as int]));
                    }
                    let v = verifier.verify_expression(&objs[i], &default_context());
                    proof { lemma_step_trans(start, before, *verifier); }
                    v?;
                    i = i + 1;
                }
                let ghost before = *verifier;
                proof {
                    assert(decreases_to!(*objs => objs@));
                    assert(decreases_to!(objs@ => objs@[n as int]));
                }
                let v = verifier.imp_coerce_exp(&objs[n], &limit);
                proof { lemma_step_trans(start, before, *verifier); }
                v?;
            }
        }
        Ok(Some(Entity::Value { ty: limit }))
    }

    /// Verifies an optional chaining `base?.exp`: the placeholder for the
    /// base within `exp` is given a non-nullable value of the base's type,
    /// and the result is nullable; a base that is not nullable is reported
    /// with a warning.
    pub fn verify_opt_chaining_exp(verifier: &mut Subverifier, exp: &Expression) -> (r: Result<Option<Entity>, DeferError>)
        requires
            old(verifier).scope is Some,
            exp.kind is OptionalChaining,
        ensures
            final(verifier).step(*old(verifier)),
            r matches Ok(res) ==> match final(verifier).value_of(exp.kind->OptionalChaining_base.id) {
                None => res is None,
                Some(b) => {
                    &&& match final(verifier).value_of(exp.kind->OptionalChaining_expression.id) {
                        Some(x) => res == Some(Entity::Value { ty: spec_chaining_result_type(x.spec_static_type()) }),
                        None => res is None,
                    }
                    &&& spec_placeholder_type(b.spec_static_type()) == spec_escape_of_nullable_or_non_nullable(b.spec_static_type())
                        ==> warning_at(final(verifier).host.diagnostics@, exp.kind->OptionalChaining_base.location.first_offset)
                },
            },
            old(verifier).is_verified(exp.kind->OptionalChaining_base.id)
                && old(verifier).is_verified(exp.kind->OptionalChaining_expression.id) ==> r is Ok,
        decreases exp, 1nat,
    {
        let (base, placeholder, expression) = match &exp.kind {
            ExpressionKind::OptionalChaining { base, placeholder, expression } => (base, *placeholder, expression),
            _ => { proof { assert(false); } return Ok(None); },
        };
        proof { assert(decreases_to!(*exp => exp.kind)); }
        let ghost start = *verifier;
        let b = verifier.verify_expression(base, &default_context())?;
        let ghost s1 = *verifier;
        let placeholder_value = match &b {
            None => None,
            Some(b) => {
                let e = escape_of_nullable_or_non_nullable(&b.static_type());
                Some(Entity::Value { ty: if includes_null(&e) || includes_undefined(&e) { Ty::NonNullable(Box::new(e)) } else { e } })
            },
        };
        if !verifier.host.node_mapping.contains_key(&placeholder) {
            verifier.host.node_mapping.insert(placeholder, placeholder_value);
            if verifier.host.node_invalidation_mapping.contains_key(&placeholder) {
                verifier.host.node_invalidation_mapping.remove(&placeholder);
            }
        }
        proof {
            lemma_step_trans(start, s1, *verifier);
        }
        let ghost s2 = *verifier;
        let x = verifier.verify_expression(expression, &default_context());
        proof {
            lemma_step_trans(start, s2, *verifier);
            lemma_step_trans(s1, s2, *verifier);
            lemma_results_stable(s1, *verifier);
        }
        let x = x?;
        let b = match b {
            None => return Ok(None),
            Some(b) => b,
        };
        let e = escape_of_nullable_or_non_nullable(&b.static_type());
        if !(includes_null(&e) || includes_undefined(&e)) {
            let ghost s3 = *verifier;
            verifier.add_warning(&base.location, DiagnosticKind::ReferenceIsAlreadyNonNullable);
            proof {
                lemma_step_trans(start, s3, *verifier);
                lemma_results_stable(s3, *verifier);
            }
        }
        match x {
            None => Ok(None),
            Some(x) => {
                let st = x.static_type();
                if st.is(Ty::Object) {
                    Ok(Some(Entity::Value { ty: st }))
                } else {
                    Ok(Some(Entity::Value { ty: Ty::Nullable(Box::new(st)) }))
                }
            },
        }
    }
}

} // verus!
