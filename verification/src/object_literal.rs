//! Verification of object initializers, including initializers of options
//! classes, whose fields name the class's variables.
use vstd::prelude::*;
use crate::ast::{Expression, ExpressionKind, InitializerField, FieldName, QualifiedIdentifier, QualifiedIdentifierIdentifier};
use crate::diagnostics::DiagnosticKind;
use crate::semantics::{Ty, TypeDef, Entity, Property, PropertyKind, def_of, spec_escape_of_nullable_or_non_nullable, escape_of_nullable_or_non_nullable, spec_includes_null, spec_includes_undefined, includes_null, includes_undefined};
use crate::subverifier::{Subverifier, VerifierExpressionContext, DeferError, default_context};
use crate::resolution::{PropertyLookupKey, PropertyLookupError, spec_find_property, find_property};
use crate::exp::{ExpSubverifier, lemma_step_trans};
use crate::exp_names::qid_operands_verified;

verus! {

broadcast use vstd::std_specs::hash::group_hash_axioms;

/// Whether a variable of an options class must be given: a variable whose
/// type includes neither `null` nor `undefined`.
pub open spec fn is_required_option(p: Property) -> bool {
    match p.kind {
        PropertyKind::Variable { static_type, .. } => !spec_includes_null(static_type) && !spec_includes_undefined(static_type),
        _ => false,
    }
}

fn required_option(p: &Property) -> (r: bool)
    ensures
        r == is_required_option(*p),
{
    match &p.kind {
        PropertyKind::Variable { static_type, .. } => !includes_null(static_type) && !includes_undefined(static_type),
        _ => false,
    }
}

/// The options class that an object initializer is verified against, if
/// the context type is one: its instance variables.
pub open spec fn spec_options_class(types: Seq<TypeDef>, e: Ty) -> Option<Seq<Property>> {
    match def_of(types, e) {
        Some(TypeDef::Class(c)) => if c.is_options_class { Some(c.prototype@) } else { None },
        _ => None,
    }
}

/// The type an object initializer is verified against: the context type, or `*`.
pub open spec fn spec_object_context_type(context: VerifierExpressionContext) -> Ty {
    match context.context_type {
        Some(t) => t,
        None => Ty::Any,
    }
}

/// The expressions of a field of an object initializer have been verified
/// in `v`: its rest expression, the qualifier and key of an identifier name,
/// the expression of another name, and its value.
pub open spec fn field_operands_verified(v: Subverifier, f: InitializerField) -> bool {
    match f {
        InitializerField::Rest(x, _) => v.is_verified(x.id),
        InitializerField::Field { name, value, .. } => {
            &&& match name {
                FieldName::Identifier(q) => qid_operands_verified(v, q),
                FieldName::Brackets(x) => v.is_verified(x.id),
                FieldName::StringLiteral(x) => v.is_verified(x.id),
                FieldName::NumericLiteral(x) => v.is_verified(x.id),
            }
            &&& match value {
                Some(x) => v.is_verified(x.id),
                None => true,
            }
        },
    }
}

/// Every field of `fields` has its expressions verified in `v`.
pub open spec fn fields_operands_verified(v: Subverifier, fields: Seq<InitializerField>) -> bool {
    forall|i: int| 0 <= i < fields.len() ==> field_operands_verified(v, #[trigger] fields[i])
}

/// What verifying a field of a dynamic object gives once it succeeds: the
/// rest expression, or a shorthand field's node, or the key expression and
/// the value, are verified.
pub open spec fn ecma_field_done(v: Subverifier, f: InitializerField) -> bool {
    match f {
        InitializerField::Rest(x, _) => v.is_verified(x.id),
        InitializerField::Field { id, name, value, .. } => match (name, value) {
            (FieldName::Identifier(_), None) => v.is_verified(id),
            _ => {
                &&& (name matches FieldName::Brackets(x) ==> v.is_verified(x.id))
                &&& (value matches Some(x) ==> v.is_verified(x.id))
            },
        },
    }
}

/// What is verified of the fields stays verified as verification goes on.
pub proof fn lemma_fields_operands_stable(a: Subverifier, b: Subverifier, fields: Seq<InitializerField>)
    requires
        fields_operands_verified(a, fields),
        b.progress(a),
    ensures
        fields_operands_verified(b, fields),
{
    assert forall|i: int| 0 <= i < fields.len() implies field_operands_verified(b, #[trigger] fields[i]) by {
        assert(field_operands_verified(a, fields[i]));
        match fields[i] {
            InitializerField::Rest(x, _) => { assert(a.is_verified(x.id)); },
            InitializerField::Field { name, value, .. } => {
                match name {
                    FieldName::Identifier(q) => {
                        if let Some(qq) = q.qualifier { assert(a.is_verified(qq.id)); }
                        if let QualifiedIdentifierIdentifier::Brackets(e) = q.id { assert(a.is_verified(e.id)); }
                    },
                    FieldName::Brackets(x) => { assert(a.is_verified(x.id)); },
                    FieldName::StringLiteral(x) => { assert(a.is_verified(x.id)); },
                    FieldName::NumericLiteral(x) => { assert(a.is_verified(x.id)); },
                }
                if let Some(x) = value { assert(a.is_verified(x.id)); }
            },
        }
    }
}

/// Verification of object initializers.
pub struct ObjectLiteralSubverifier;

impl ObjectLiteralSubverifier {
    /// Verifies an object initializer against the context type: any fields
    /// for `*` and `Object`, the variables of an options class for one;
    /// other context types are reported. The result is a value of the
    /// context type.
    pub fn verify_object_initializer(verifier: &mut Subverifier, exp: &Expression, context: &VerifierExpressionContext)
        -> (r: Result<Option<Entity>, DeferError>)
        requires
            old(verifier).scope is Some,
            exp.kind is ObjectInitializer,
        ensures
            final(verifier).step(*old(verifier)),
            r matches Ok(res) ==> ({
                let ct = spec_object_context_type(*context);
                let e = spec_escape_of_nullable_or_non_nullable(ct);
                &&& res == if e == Ty::Invalidation { Some(Entity::Invalidation) } else { Some(Entity::Value { ty: ct }) }
                &&& !(e == Ty::Any || e == Ty::Object || e == Ty::Invalidation)
                    && spec_options_class(old(verifier).host.types@, e) is None
                    ==> final(verifier).spec_has_error_at(exp.location)
                &&& (!(e == Ty::Any || e == Ty::Object) && (spec_options_class(old(verifier).host.types@, e) matches Some(proto)
                    && plain_before(exp.kind->ObjectInitializer_fields@, exp.kind->ObjectInitializer_fields@.len() as int)
                    && spec_missing_option(proto, exp.kind->ObjectInitializer_fields@)))
                    ==> final(verifier).spec_has_error_at(exp.location)
            }),
            fields_operands_verified(*old(verifier), exp.kind->ObjectInitializer_fields@) ==> r is Ok,
        decreases exp, 1nat,
    {
        let fields = match &exp.kind {
            ExpressionKind::ObjectInitializer { fields } => fields,
            _ => { proof { assert(false); } return Ok(None); },
        };
        proof {
            assert(decreases_to!(*exp => exp.kind));
            assert(decreases_to!(exp.kind => exp.kind->ObjectInitializer_fields));
        }
        let ghost start = *verifier;
        let ct = match &context.context_type {
            Some(t) => t.clone(),
            None => Ty::Any,
        };
        let e = escape_of_nullable_or_non_nullable(&ct);
        proof { assert(exp.kind->ObjectInitializer_fields@ == fields@); }
        let options = if e.is(Ty::Any) || e.is(Ty::Object) {
            None
        } else {
            match verifier.host.get_def(&e) {
                Some(TypeDef::Class(c)) => if c.is_options_class { Some(clone_properties(&c.prototype)) } else { None },
                _ => None,
            }
        };
        if e.is(Ty::Any) || e.is(Ty::Object) {
            Self::verify_object_initializer_for_ecma_object(verifier, fields)?;
        } else if let Some(proto) = options {
            Self::verify_object_initializer_for_options_class(verifier, exp, fields, &e, &proto)?;
        } else {
            let invalid = e.is(Ty::Invalidation);
            if !invalid {
                verifier.add_verify_error(&exp.location, DiagnosticKind::UnexpectedObject);
            }
            let ghost s1 = *verifier;
            proof {
                if fields_operands_verified(start, fields@) {
                    lemma_fields_operands_stable(start, s1, fields@);
                }
            }
            let v = Self::verify_object_initializer_for_ecma_object(verifier, fields);
            proof {
                lemma_step_trans(start, s1, *verifier);
                if !invalid {
                    crate::subverifier::lemma_keeps_error(s1, *verifier, exp.location);
                }
            }
            v?;
        }
        if e.is(Ty::Invalidation) {
            return Ok(Some(Entity::Invalidation));
        }
        Ok(Some(Entity::Value { ty: ct }))
    }

    /// Verifies the fields of an object initializer of a dynamic object:
    /// a shorthand field `{x}` resolves `x`, and the field node is mapped to
    /// what it resolves to.
    fn verify_object_initializer_for_ecma_object(verifier: &mut Subverifier, fields: &Vec<InitializerField>)
        -> (r: Result<(), DeferError>)
        requires
            old(verifier).scope is Some,
        ensures
            final(verifier).step(*old(verifier)),
            r is Ok ==> forall|i: int| 0 <= i < fields@.len() ==> ecma_field_done(*final(verifier), #[trigger] fields@[i]),
            fields_operands_verified(*old(verifier), fields@) ==> r is Ok,
        decreases fields, 2nat,
    {
        let ghost start = *verifier;
        let mut i: usize = 0;
        while i < fields.len()
            invariant
                i <= fields@.len(),
                start == *old(verifier),
                verifier.step(start),
                verifier.scope is Some,
                forall|j: int| 0 <= j < i ==> ecma_field_done(*verifier, #[trigger] fields@[j]),
                fields_operands_verified(start, fields@) ==> fields_operands_verified(*verifier, fields@),
            decreases fields@.len() - i,
        {
            let ghost before = *verifier;
            proof {
                assert(decreases_to!(*fields => fields@));
                assert(decreases_to!(fields@ => fields@[i as int]));
            }
            let v = Self::verify_ecma_field(verifier, &fields[i]);
            proof {
                lemma_step_trans(start, before, *verifier);
                if fields_operands_verified(start, fields@) {
                    assert(field_operands_verified(before, fields@[i as int]));
                    lemma_fields_operands_stable(before, *verifier, fields@);
                }
            }
            v?;
            proof {
                assert forall|j: int| 0 <= j < i + 1 implies ecma_field_done(*verifier, #[trigger] fields@[j]) by {
                    if j < i {
                        assert(ecma_field_done(before, fields@[j]));
                        match fields@[j] {
                            InitializerField::Rest(x, _) => { assert(before.is_verified(x.id)); },
                            InitializerField::Field { id, name, value, .. } => {
                                assert(before.is_verified(id) ==> verifier.is_verified(id));
                                if let FieldName::Brackets(x) = name { assert(before.is_verified(x.id) ==> verifier.is_verified(x.id)); }
                                if let Some(x) = value { assert(before.is_verified(x.id) ==> verifier.is_verified(x.id)); }
                            },
                        }
                    }
                }
            }
            i = i + 1;
        }
        Ok(())
    }

    /// Verifies a field of an initializer of a dynamic object: its rest
    /// expression, its shorthand name, or its key expression and value.
    fn verify_ecma_field(verifier: &mut Subverifier, field: &InitializerField) -> (r: Result<(), DeferError>)
        requires
            old(verifier).scope is Some,
        ensures
            final(verifier).step(*old(verifier)),
            r is Ok ==> ecma_field_done(*final(verifier), *field),
            field_operands_verified(*old(verifier), *field) ==> r is Ok,
        decreases field, 1nat,
    {
        let ghost start = *verifier;
        match field {
            InitializerField::Rest(x, _) => {
                proof { assert(decreases_to!(*field => field->Rest_0)); }
                verifier.verify_expression(x, &default_context())?;
                Ok(())
            },
            InitializerField::Field { id, name, value, .. } => {
                proof {
                    assert(decreases_to!(*field => field->name));
                    assert(decreases_to!(*field => field->value));
                }
                if let (FieldName::Identifier(q), None) = (name, value) {
                    let res = Self::verify_initializer_shorthand(verifier, q)?;
                    let ghost s1 = *verifier;
                    verifier.map_node(*id, res);
                    proof { lemma_step_trans(start, s1, *verifier); }
                    return Ok(());
                }
                if let FieldName::Brackets(x) = name {
                    verifier.verify_expression(x, &default_context())?;
                }
                let ghost s1 = *verifier;
                if let Some(v) = value {
                    let r = verifier.verify_expression(v, &default_context());
                    proof {
                        lemma_step_trans(start, s1, *verifier);
                        if let FieldName::Brackets(x) = name { assert(s1.is_verified(x.id)); }
                    }
                    r?;
                }
                Ok(())
            },
        }
    }

    /// Resolves a shorthand field `{x}`: `x` is looked up in the scope chain.
    fn verify_initializer_shorthand(verifier: &mut Subverifier, id: &QualifiedIdentifier) -> (r: Result<Option<Entity>, DeferError>)
        requires
            old(verifier).scope is Some,
        ensures
            final(verifier).step(*old(verifier)),
            r matches Ok(res) ==> (id.qualifier is None && id.id is Id ==> match id.id {
                QualifiedIdentifierIdentifier::Id(n, _) => res == crate::exp_names::spec_name_result(*old(verifier),
                    PropertyLookupKey::LocalName(n), VerifierExpressionContext::spec_default())
                    && (res is None ==> final(verifier).spec_has_error_at(id.location)),
                _ => true,
            }),
            qid_operands_verified(*old(verifier), *id) ==> r is Ok,
        decreases id, 1nat,
    {
        let ghost start = *verifier;
        let (_qual, key) = match ExpSubverifier::verify_qualified_identifier(verifier, id)? {
            None => return Ok(None),
            Some(x) => x,
        };
        let ghost s1 = *verifier;
        let kind = match verifier.host.lookup_in_scope_chain(verifier.scope, &key) {
            Ok(Some(e)) => {
                verifier.detect_local_capture(&e);
                proof { lemma_step_trans(start, s1, *verifier); }
                return Ok(Some(verifier.reference_post_processing(e, &default_context())));
            },
            Err(PropertyLookupError::Defer) => return Err(DeferError),
            Ok(None) => DiagnosticKind::UndefinedProperty,
            Err(PropertyLookupError::AmbiguousReference(_)) => DiagnosticKind::AmbiguousReference,
            Err(PropertyLookupError::VoidBase) => DiagnosticKind::AccessOfVoid,
            Err(PropertyLookupError::NullableObject) => DiagnosticKind::AccessOfNullable,
        };
        verifier.add_verify_error(&id.location, kind);
        proof { lemma_step_trans(start, s1, *verifier); }
        Ok(None)
    }
}

/// Whether a field of an initializer of an options class may give any
/// option: a rest field or a computed field name.
pub open spec fn field_gives_any_option(f: InitializerField) -> bool {
    match f {
        InitializerField::Rest(_, _) => true,
        InitializerField::Field { name, .. } => name is Brackets,
    }
}

/// The option that a field names by a plain identifier.
pub open spec fn field_option_name(f: InitializerField) -> Option<Seq<char>> {
    match f {
        InitializerField::Field { name: FieldName::Identifier(q), .. } => match crate::exp_names::spec_qid_name(q) {
            Some(n) => Some(n@),
            None => None,
        },
        _ => None,
    }
}

/// Whether a field names its option plainly: no qualified or string-literal name.
pub open spec fn field_named_plainly(f: InitializerField) -> bool {
    match f {
        InitializerField::Field { name: FieldName::Identifier(q), .. } => crate::exp_names::spec_qid_name(q) is Some,
        InitializerField::Field { name: FieldName::StringLiteral(_), .. } => false,
        _ => true,
    }
}

/// Whether the field names the option at index `i` of `proto`.
pub open spec fn field_names_option(f: InitializerField, proto: Seq<Property>, i: int) -> bool {
    match field_option_name(f) {
        Some(n) => spec_find_property(proto, n) == Some(i),
        None => false,
    }
}

/// Whether a required option of `proto` is given by no field of `fields`.
pub open spec fn spec_missing_option(proto: Seq<Property>, fields: Seq<InitializerField>) -> bool {
    &&& !exists|j: int| 0 <= j < fields.len() && field_gives_any_option(#[trigger] fields[j])
    &&& exists|i: int| 0 <= i < proto.len() && is_required_option(#[trigger] proto[i])
        && !exists|j: int| 0 <= j < fields.len() && #[trigger] field_names_option(fields[j], proto, i)
}

impl ObjectLiteralSubverifier {
    /// Resolves the instance variable of an options class that a field
    /// name names: its index in `proto`. A computed or qualified-by-value
    /// name is reported as a dynamic option, and a name that is not a
    /// variable of the class as an unknown option.
    fn resolve_instance_variable(verifier: &mut Subverifier, proto: &Vec<Property>, id: &QualifiedIdentifier)
        -> (r: Result<Option<usize>, DeferError>)
        requires
            old(verifier).scope is Some,
        ensures
            final(verifier).step(*old(verifier)),
            r matches Ok(Some(k)) ==> k < proto@.len() && proto@[k as int].kind is Variable,
            r matches Ok(res) ==> (crate::exp_names::spec_qid_name(*id) matches Some(n) ==> match spec_find_property(proto@, n@) {
                Some(k) => if proto@[k].kind is Variable { res == Some(k as usize) } else { res is None },
                None => res is None,
            }),
            qid_operands_verified(*old(verifier), *id) ==> r is Ok,
        decreases id, 1nat,
    {
        let ghost start = *verifier;
        let (qual, key) = match ExpSubverifier::verify_qualified_identifier(verifier, id)? {
            None => return Ok(None),
            Some(x) => x,
        };
        let ghost s1 = *verifier;
        let known_ns = match &qual {
            None => true,
            Some(q) => matches!(q, Entity::NamespaceConstant { .. }),
        };
        let name = match &key {
            PropertyLookupKey::LocalName(n) => n,
            PropertyLookupKey::Computed(_) => {
                verifier.add_verify_error(&id.location, DiagnosticKind::DynamicOptionNotSupported);
                proof { lemma_step_trans(start, s1, *verifier); }
                return Ok(None);
            },
        };
        if !known_ns {
            verifier.add_verify_error(&id.location, DiagnosticKind::DynamicOptionNotSupported);
            proof { lemma_step_trans(start, s1, *verifier); }
            return Ok(None);
        }
        let r = Self::resolve_instance_variable_named(verifier, proto, name, &id.location);
        proof { lemma_step_trans(start, s1, *verifier); }
        Ok(r)
    }

    fn resolve_instance_variable_named(verifier: &mut Subverifier, proto: &Vec<Property>, name: &String, location: &crate::ast::Location)
        -> (r: Option<usize>)
        ensures
            final(verifier).step(*old(verifier)),
            r matches Some(k) ==> k < proto@.len() && proto@[k as int].kind is Variable,
            match spec_find_property(proto@, name@) {
                Some(k) => if proto@[k].kind is Variable { r == Some(k as usize) } else { r is None },
                None => r is None,
            },
    {
        match find_property(proto, name) {
            Some(k) => {
                if let PropertyKind::Variable { .. } = &proto[k].kind {
                    return Some(k);
                }
                verifier.add_verify_error(location, DiagnosticKind::UnknownOptionForClass);
                None
            },
            None => {
                verifier.add_verify_error(location, DiagnosticKind::UnknownOptionForClass);
                None
            },
        }
    }

    /// Verifies a field `name: value` of an initializer of an options class.
    fn verify_non_shorthand_notation_for_options_class(verifier: &mut Subverifier, field: &InitializerField,
        proto: &Vec<Property>, missing: &mut Vec<bool>) -> (r: Result<(), DeferError>)
        requires
            old(verifier).scope is Some,
            old(missing)@.len() == proto@.len(),
            forall|i: int| 0 <= i < proto@.len() ==> (#[trigger] old(missing)@[i] ==> is_required_option(proto@[i])),
            field is Field,
            !(field->name is Identifier && field->value is None),
        ensures
            final(verifier).step(*old(verifier)),
            final(missing)@.len() == proto@.len(),
            r is Ok && field_gives_any_option(*field) ==> forall|i: int| 0 <= i < proto@.len() ==> !#[trigger] final(missing)@[i],
            !field_gives_any_option(*field) ==> forall|i: int| 0 <= i < proto@.len() ==> (#[trigger] final(missing)@[i]
                ==> old(missing)@[i]),
            r is Ok && !field_gives_any_option(*field) && field_named_plainly(*field) ==> forall|i: int| 0 <= i < proto@.len()
                ==> (#[trigger] final(missing)@[i] == (old(missing)@[i] && !field_names_option(*field, proto@, i))),
            field_operands_verified(*old(verifier), *field) ==> r is Ok,
        decreases field, 1nat,
    {
        let ghost start = *verifier;
        let (name, name_location, value) = match field {
            InitializerField::Field { name, name_location, value, .. } => (name, *name_location, value),
            InitializerField::Rest(_, _) => { return Ok(()); },
        };
        proof {
            assert(decreases_to!(*field => field->name));
            assert(decreases_to!(*field => field->value));
        }
        let value_exp = match value {
            Some(v) => v,
            None => {
                if let FieldName::Brackets(_) = name {
                    let n = missing.len();
                    *missing = Vec::new();
                    let mut k: usize = 0;
                    while k < n
                        invariant
                            k <= n,
                            missing@.len() == k,
                            forall|i: int| 0 <= i < k ==> !#[trigger] missing@[i],
                        decreases n - k,
                    {
                        missing.push(false);
                        k = k + 1;
                    }
                }
                return Ok(());
            },
        };
        match name {
            FieldName::Brackets(x) => {
                verifier.imp_coerce_exp(x, &Ty::String)?;
                let ghost s1 = *verifier;
                let v = verifier.verify_expression(value_exp, &default_context());
                proof { lemma_step_trans(start, s1, *verifier); }
                v?;
                let n = missing.len();
                *missing = Vec::new();
                let mut k: usize = 0;
                while k < n
                    invariant
                        k <= n,
                        missing@.len() == k,
                        forall|i: int| 0 <= i < k ==> !#[trigger] missing@[i],
                    decreases n - k,
                {
                    missing.push(false);
                    k = k + 1;
                }
            },
            FieldName::Identifier(q) => {
                let variable = Self::resolve_instance_variable(verifier, proto, q)?;
                let ghost s1 = *verifier;
                if let Some(k) = variable {
                    missing.set(k, false);
                }
                let plen = proto.len();
                proof {
                    assert(proto@.len() == plen);
                    lemma_option_removed(*field, proto@, old(missing)@, missing@, q, variable);
                }
                let v = match variable {
                    Some(k) => {
                        let t = match &proto[k].kind {
                            PropertyKind::Variable { static_type, .. } => static_type.clone(),
                            _ => Ty::Any,
                        };
                        verifier.imp_coerce_exp(value_exp, &t).map(|_v: Option<Entity>| ())
                    },
                    None => verifier.verify_expression(value_exp, &default_context()).map(|_v: Option<Entity>| ()),
                };
                proof { lemma_step_trans(start, s1, *verifier); }
                v?;
            },
            FieldName::StringLiteral(sl) => {
                let nv = verifier.verify_expression(sl, &default_context())?;
                let ghost s1 = *verifier;
                let variable = match &nv {
                    Some(Entity::StringConstant { value, .. }) => Self::resolve_instance_variable_named(verifier, proto, value, &sl.location),
                    _ => None,
                };
                let ghost s2 = *verifier;
                let v = match variable {
                    Some(k) => {
                        missing.set(k, false);
                        let t = match &proto[k].kind {
                            PropertyKind::Variable { static_type, .. } => static_type.clone(),
                            _ => Ty::Any,
                        };
                        verifier.imp_coerce_exp(value_exp, &t).map(|_v: Option<Entity>| ())
                    },
                    None => verifier.verify_expression(value_exp, &default_context()).map(|_v: Option<Entity>| ()),
                };
                proof { lemma_step_trans(start, s1, s2); lemma_step_trans(start, s2, *verifier); }
                v?;
            },
            FieldName::NumericLiteral(_) => {
                verifier.verify_expression(value_exp, &default_context())?;
                let ghost s1 = *verifier;
                verifier.add_verify_error(&name_location, DiagnosticKind::UnexpectedFieldName);
                proof { lemma_step_trans(start, s1, *verifier); }
            },
        }
        Ok(())
    }
}

/// Whether a field before `j` gives any option.
pub open spec fn cleared_before(fields: Seq<InitializerField>, j: int) -> bool {
    exists|k: int| 0 <= k < j && field_gives_any_option(#[trigger] fields[k])
}

/// Whether a field before `j` names the option at `i`.
pub open spec fn named_before(fields: Seq<InitializerField>, proto: Seq<Property>, j: int, i: int) -> bool {
    exists|k: int| 0 <= k < j && #[trigger] field_names_option(fields[k], proto, i)
}

/// Whether every field before `j` names its option plainly.
pub open spec fn plain_before(fields: Seq<InitializerField>, j: int) -> bool {
    forall|k: int| 0 <= k < j ==> field_named_plainly(#[trigger] fields[k])
}

/// Giving the option that a plainly named field resolves to clears exactly
/// that option.
proof fn lemma_option_removed(field: InitializerField, proto: Seq<Property>, m0: Seq<bool>, m1: Seq<bool>,
    q: &QualifiedIdentifier, variable: Option<usize>)
    requires
        field matches InitializerField::Field { name: FieldName::Identifier(qq), .. } && qq == *q,
        m0.len() == proto.len(),
        proto.len() <= usize::MAX,
        forall|i: int| 0 <= i < proto.len() ==> (#[trigger] m0[i] ==> is_required_option(proto[i])),
        variable matches Some(k) ==> k < proto.len() && m1 == m0.update(k as int, false),
        variable is None ==> m1 == m0,
        crate::exp_names::spec_qid_name(*q) matches Some(n) ==> match spec_find_property(proto, n@) {
            Some(k) => if proto[k].kind is Variable { variable == Some(k as usize) } else { variable is None },
            None => variable is None,
        },
    ensures
        m1.len() == proto.len(),
        forall|i: int| 0 <= i < proto.len() ==> (#[trigger] m1[i] ==> m0[i]),
        field_named_plainly(field) ==> forall|i: int| 0 <= i < proto.len()
            ==> (#[trigger] m1[i] == (m0[i] && !field_names_option(field, proto, i))),
{
    if field_named_plainly(field) {
        let n = crate::exp_names::spec_qid_name(*q).unwrap();
        assert(field_option_name(field) == Some(n@));
        match spec_find_property(proto, n@) {
            Some(k) => {
                assert(crate::resolution::first_named(proto, n@, k));
                assert forall|i: int| 0 <= i < proto.len() implies (#[trigger] m1[i] == (m0[i] && !field_names_option(field, proto, i))) by {
                    assert(field_names_option(field, proto, i) == (k == i));
                    if proto[k].kind is Variable {
                        assert(variable == Some(k as usize));
                        assert(m1 == m0.update(k, false));
                    } else {
                        if i == k && m0[i] {
                            assert(is_required_option(proto[i]));
                        }
                    }
                }
            },
            None => {
                assert forall|i: int| 0 <= i < proto.len() implies (#[trigger] m1[i] == (m0[i] && !field_names_option(field, proto, i))) by {
                    assert(!field_names_option(field, proto, i));
                }
            },
        }
    }
}

impl ObjectLiteralSubverifier {
    /// Verifies a shorthand field `{x}` of an initializer of an options
    /// class: `x` names an option and gives its value.
    fn verify_options_shorthand(verifier: &mut Subverifier, field: &InitializerField, proto: &Vec<Property>,
        missing: &mut Vec<bool>) -> (r: Result<(), DeferError>)
        requires
            old(verifier).scope is Some,
            old(missing)@.len() == proto@.len(),
            forall|i: int| 0 <= i < proto@.len() ==> (#[trigger] old(missing)@[i] ==> is_required_option(proto@[i])),
            field is Field,
            field->name is Identifier,
        ensures
            final(verifier).step(*old(verifier)),
            final(missing)@.len() == proto@.len(),
            forall|i: int| 0 <= i < proto@.len() ==> (#[trigger] final(missing)@[i] ==> old(missing)@[i]),
            r is Ok && field_named_plainly(*field) ==> forall|i: int| 0 <= i < proto@.len()
                ==> (#[trigger] final(missing)@[i] == (old(missing)@[i] && !field_names_option(*field, proto@, i))),
            field_operands_verified(*old(verifier), *field) ==> r is Ok,
        decreases field, 1nat,
    {
        let ghost start = *verifier;
        let (fid, q) = match field {
            InitializerField::Field { id, name: FieldName::Identifier(q), .. } => (*id, q),
            _ => { proof { assert(false); } return Ok(()); },
        };
        proof {
            assert(decreases_to!(*field => field->name));
            assert(decreases_to!(field->name => field->name->Identifier_0));
        }
        let variable = Self::resolve_instance_variable(verifier, proto, q)?;
        if let Some(k) = variable {
            missing.set(k, false);
        }
        let plen = proto.len();
        proof {
            assert(proto@.len() == plen);
            lemma_option_removed(*field, proto@, old(missing)@, missing@, q, variable);
        }
        let ghost s1 = *verifier;
        let short_ref = Self::verify_initializer_shorthand(verifier, q);
        proof { lemma_step_trans(start, s1, *verifier); }
        let mut short_ref = short_ref?;
        if let (Some(sr), Some(k)) = (&short_ref, variable) {
            let t = match &proto[k].kind {
                PropertyKind::Variable { static_type, .. } => static_type.clone(),
                _ => Ty::Any,
            };
            match verifier.host.implicit(sr, &t) {
                None => {
                    let ghost s2 = *verifier;
                    verifier.add_verify_error(&q.location, DiagnosticKind::ImplicitCoercionToUnrelatedType);
                    proof { lemma_step_trans(start, s2, *verifier); }
                    return Ok(());
                },
                Some(c) => { short_ref = Some(c); },
            }
        }
        let ghost s3 = *verifier;
        verifier.map_node(fid, short_ref);
        proof { lemma_step_trans(start, s3, *verifier); }
        Ok(())
    }

    /// Verifies an initializer of an options class: each field gives one
    /// of the class's variables, and a required variable that no field
    /// gives is reported.
    fn verify_object_initializer_for_options_class(verifier: &mut Subverifier, exp: &Expression, fields: &Vec<InitializerField>,
        class_type: &Ty, proto: &Vec<Property>) -> (r: Result<(), DeferError>)
        requires
            old(verifier).scope is Some,
        ensures
            final(verifier).step(*old(verifier)),
            r is Ok && plain_before(fields@, fields@.len() as int) && spec_missing_option(proto@, fields@)
                ==> final(verifier).spec_has_error_at(exp.location),
            fields_operands_verified(*old(verifier), fields@) ==> r is Ok,
        decreases fields, 2nat,
    {
        let ghost start = *verifier;
        let mut missing: Vec<bool> = Vec::new();
        let mut k: usize = 0;
        while k < proto.len()
            invariant
                k <= proto@.len(),
                missing@.len() == k,
                forall|i: int| 0 <= i < k ==> #[trigger] missing@[i] == is_required_option(proto@[i]),
            decreases proto@.len() - k,
        {
            missing.push(required_option(&proto[k]));
            k = k + 1;
        }
        let mut j: usize = 0;
        while j < fields.len()
            invariant
                j <= fields@.len(),
                missing@.len() == proto@.len(),
                start == *old(verifier),
                verifier.step(start),
                verifier.scope is Some,
                forall|i: int| 0 <= i < proto@.len() ==> (#[trigger] missing@[i] ==> is_required_option(proto@[i])),
                plain_before(fields@, j as int) ==> forall|i: int| 0 <= i < proto@.len() ==> (#[trigger] missing@[i]
                    == (is_required_option(proto@[i]) && !cleared_before(fields@, j as int) && !named_before(fields@, proto@, j as int, i))),
                fields_operands_verified(start, fields@) ==> fields_operands_verified(*verifier, fields@),
            decreases fields@.len() - j,
        {
            let ghost before = *verifier;
            let ghost m0 = missing@;
            proof {
                assert(decreases_to!(*fields => fields@));
                assert(decreases_to!(fields@ => fields@[j as int]));
            }
            let field = &fields[j];
            let v = match field {
                InitializerField::Rest(x, _) => {
                    proof { assert(decreases_to!(*field => field->Rest_0)); }
                    let v = verifier.imp_coerce_exp(x, class_type);
                    let n = missing.len();
                    missing = Vec::new();
                    let mut k: usize = 0;
                    while k < n
                        invariant
                            k <= n,
                            missing@.len() == k,
                            forall|i: int| 0 <= i < k ==> !#[trigger] missing@[i],
                        decreases n - k,
                    {
                        missing.push(false);
                        k = k + 1;
                    }
                    v.map(|_v: Option<Entity>| ())
                },
                InitializerField::Field { name: FieldName::Identifier(_), value: None, .. } =>
                    Self::verify_options_shorthand(verifier, field, proto, &mut missing),
                _ => Self::verify_non_shorthand_notation_for_options_class(verifier, field, proto, &mut missing),
            };
            proof {
                lemma_step_trans(start, before, *verifier);
                if fields_operands_verified(start, fields@) {
                    assert(field_operands_verified(before, fields@[j as int]));
                    lemma_fields_operands_stable(before, *verifier, fields@);
                }
            }
            v?;
            proof {
                if plain_before(fields@, j + 1) {
                    assert(plain_before(fields@, j as int));
                    assert(field_named_plainly(fields@[j as int]));
                    assert forall|i: int| 0 <= i < proto@.len() implies (#[trigger] missing@[i]
                        == (is_required_option(proto@[i]) && !cleared_before(fields@, j + 1) && !named_before(fields@, proto@, j + 1, i))) by {
                        if cleared_before(fields@, j + 1) && !cleared_before(fields@, j as int) {
                            assert(field_gives_any_option(fields@[j as int]));
                        }
                        if named_before(fields@, proto@, j + 1, i) && !named_before(fields@, proto@, j as int, i) {
                            assert(field_names_option(fields@[j as int], proto@, i));
                        }
                        if cleared_before(fields@, j as int) {
                            let kk = choose|kk: int| 0 <= kk < j && field_gives_any_option(#[trigger] fields@[kk]);
                            assert(0 <= kk < j + 1 && field_gives_any_option(fields@[kk]));
                        }
                        if named_before(fields@, proto@, j as int, i) {
                            let kk = choose|kk: int| 0 <= kk < j && #[trigger] field_names_option(fields@[kk], proto@, i);
                            assert(0 <= kk < j + 1 && field_names_option(fields@[kk], proto@, i));
                        }
                        if field_gives_any_option(fields@[j as int]) {
                            assert(0 <= j < j + 1 && field_gives_any_option(fields@[j as int]));
                        }
                        if field_names_option(fields@[j as int], proto@, i) {
                            assert(0 <= j < j + 1 && field_names_option(fields@[j as int], proto@, i));
                        }
                    }
                }
            }
            j = j + 1;
        }
        let mut any = false;
        let mut k: usize = 0;
        while k < missing.len()
            invariant
                k <= missing@.len(),
                any <==> exists|i: int| 0 <= i < k && #[trigger] missing@[i],
            decreases missing@.len() - k,
        {
            if missing[k] {
                any = true;
            }
            k = k + 1;
        }
        if any {
            let ghost s1 = *verifier;
            verifier.add_verify_error(&exp.location, DiagnosticKind::MustSpecifyOption);
            proof { lemma_step_trans(start, s1, *verifier); }
        }
        proof {
            if plain_before(fields@, fields@.len() as int) && spec_missing_option(proto@, fields@) {
                let i = choose|i: int| 0 <= i < proto@.len() && is_required_option(#[trigger] proto@[i])
                    && !exists|jj: int| 0 <= jj < fields@.len() && #[trigger] field_names_option(fields@[jj], proto@, i);
                assert(!cleared_before(fields@, fields@.len() as int));
                assert(!named_before(fields@, proto@, fields@.len() as int, i));
                assert(missing@[i]);
            }
        }
        Ok(())
    }
}

/// Copies a list of properties.
fn clone_properties(v: &Vec<Property>) -> (r: Vec<Property>)
    ensures
        r@ == v@,
{
    let mut r: Vec<Property> = Vec::new();
    let mut i: usize = 0;
    while i < v.len()
        invariant
            i <= v@.len(),
            r@ == v@.take(i as int),
        decreases v@.len() - i,
    {
        r.push(v[i].clone_property());
        proof { assert(v@.take(i + 1) =~= v@.take(i as int).push(v@[i as int])); }
        i = i + 1;
    }
    proof { assert(v@.take(v@.len() as int) =~= v@); }
    r
}


/// An option whose type holds neither `null` nor `undefined` must be given:
/// an initializer that names it nowhere, and gives no computed or spread
/// field, misses an option.
pub proof fn law_non_nullable_option_is_required(proto: Seq<Property>, fields: Seq<InitializerField>, i: int)
    requires
        0 <= i < proto.len(),
        proto[i].kind matches PropertyKind::Variable { static_type, .. }
            && !spec_includes_null(static_type) && !spec_includes_undefined(static_type),
        forall|j: int| 0 <= j < fields.len() ==> !field_gives_any_option(#[trigger] fields[j]),
        forall|j: int| 0 <= j < fields.len() ==> !field_names_option(#[trigger] fields[j], proto, i),
    ensures
        spec_missing_option(proto, fields),
{
    assert(is_required_option(proto[i]));
}

/// In particular an option of a numeric or Boolean type, which can be
/// neither `null` nor `undefined`, must be given.
pub proof fn law_numeric_or_boolean_option_is_required(proto: Seq<Property>, fields: Seq<InitializerField>, i: int)
    requires
        0 <= i < proto.len(),
        proto[i].kind matches PropertyKind::Variable { static_type, .. }
            && (static_type == Ty::Int || static_type == Ty::Uint || static_type == Ty::Number
                || static_type == Ty::Float || static_type == Ty::Boolean),
        forall|j: int| 0 <= j < fields.len() ==> !field_gives_any_option(#[trigger] fields[j]),
        forall|j: int| 0 <= j < fields.len() ==> !field_names_option(#[trigger] fields[j], proto, i),
    ensures
        spec_missing_option(proto, fields),
{
    law_non_nullable_option_is_required(proto, fields, i);
}

/// Options whose types hold `null` or `undefined` may be left out: an
/// options class whose every variable is such never misses an option.
pub proof fn law_nullable_options_may_be_omitted(proto: Seq<Property>, fields: Seq<InitializerField>)
    requires
        forall|i: int| 0 <= i < proto.len() ==> match (#[trigger] proto[i]).kind {
            PropertyKind::Variable { static_type, .. } => spec_includes_null(static_type) || spec_includes_undefined(static_type),
            _ => true,
        },
    ensures
        !spec_missing_option(proto, fields),
{
    assert forall|i: int| 0 <= i < proto.len() implies !is_required_option(#[trigger] proto[i]) by {
        match proto[i].kind {
            PropertyKind::Variable { static_type, .. } => {
                assert(spec_includes_null(static_type) || spec_includes_undefined(static_type));
            },
            _ => {},
        }
    }
}

} // verus!
