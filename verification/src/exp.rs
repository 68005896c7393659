//! Verification of expressions.
use vstd::prelude::*;
use crate::ast::{Expression, ExpressionKind, NumberSuffix, ReservedNamespace};
use crate::diagnostics::DiagnosticKind;
use crate::semantics::{Ty, TypeDef, Entity, NumberValue, SystemNamespaceKind, is_numeric, numeric, spec_escape_of_nullable_or_non_nullable, escape_of_nullable_or_non_nullable, spec_includes_null, spec_includes_undefined, includes_null, includes_undefined};
use crate::subverifier::{Subverifier, VerifierExpressionContext, DeferError, default_context, ok, spec_this_type, spec_system_ns_available, reported};
use crate::resolution::spec_implicit;

verus! {

broadcast use vstd::std_specs::hash::group_hash_axioms;

/// Verification of the kinds of expressions.
pub struct ExpSubverifier;

/// The value of decimal digit, hexadecimal digit or binary digit `c` in `radix`.
pub open spec fn digit_value(c: u8, radix: nat) -> Option<nat> {
    if 48 <= c <= 57 && (c - 48) < radix {
        Some((c - 48) as nat)
    } else if radix == 16 && 97 <= c <= 102 {
        Some((c - 87) as nat)
    } else if radix == 16 && 65 <= c <= 70 {
        Some((c - 55) as nat)
    } else {
        None
    }
}

/// The value of the digits `s` in `radix`, where `_` separates digits.
pub open spec fn spec_parse_digits(s: Seq<u8>, radix: nat) -> Option<nat>
    decreases s.len(),
{
    if s.len() == 0 {
        Some(0)
    } else {
        match spec_parse_digits(s.drop_last(), radix) {
            None => None,
            Some(v) => if s.last() == 95u8 {
                Some(v)
            } else {
                match digit_value(s.last(), radix) {
                    Some(d) => Some(v * radix + d),
                    None => None,
                }
            },
        }
    }
}

/// The integer that the text of a numeric literal denotes: decimal digits,
/// or digits after `0x` (hexadecimal) or `0b` (binary).
pub open spec fn spec_literal_integer(s: Seq<u8>) -> Option<nat> {
    if s.len() == 0 {
        None
    } else if s.len() > 2 && s[0] == 48u8 && (s[1] == 120u8 || s[1] == 88u8) {
        spec_parse_digits(s.skip(2), 16)
    } else if s.len() > 2 && s[0] == 48u8 && (s[1] == 98u8 || s[1] == 66u8) {
        spec_parse_digits(s.skip(2), 2)
    } else {
        spec_parse_digits(s, 10)
    }
}

/// The value of a numeric literal as a `Number`: an integer literal (of at
/// most 2 to the 32nd, well within the integers a `Number` holds exactly)
/// holds its value, negated after a minus sign; other literals are not tracked.
pub open spec fn spec_number_value(text: Seq<char>, negative: bool) -> NumberValue {
    match spec_literal_integer(vstd::utf8::encode_utf8(text)) {
        Some(n) => if n <= u32::MAX + 1 {
            NumberValue::Integer((if negative { -n } else { n as int }) as i64)
        } else {
            NumberValue::Real
        },
        None => NumberValue::Real,
    }
}

/// The value of a numeric literal as a constant of `data_type`.
pub open spec fn spec_parse_number(text: Seq<char>, data_type: Ty, negative: bool) -> Result<NumberValue, ()> {
    if data_type == Ty::Number {
        Ok(spec_number_value(text, negative))
    } else if data_type == Ty::Float {
        Ok(NumberValue::Real)
    } else {
        match spec_literal_integer(vstd::utf8::encode_utf8(text)) {
            None => Err(()),
            Some(n) => if data_type == Ty::Int {
                let v: int = if negative { -n } else { n as int };
                if i32::MIN <= v <= i32::MAX { Ok(NumberValue::Int(v as i32)) } else { Err(()) }
            } else {
                if n <= u32::MAX { Ok(NumberValue::Uint(n as u32)) } else { Err(()) }
            },
        }
    }
}

fn parse_digits(s: &[u8], start: usize, radix: u64) -> (r: Option<u64>)
    requires
        start <= s@.len(),
        radix == 2 || radix == 10 || radix == 16,
    ensures
        match r {
            Some(v) => spec_parse_digits(s@.skip(start as int), radix as nat) == Some(v as nat) && v <= u32::MAX + 1,
            None => spec_parse_digits(s@.skip(start as int), radix as nat) matches Some(v) ==> v > u32::MAX + 1,
        },
{
    let mut v: u64 = 0;
    let mut i: usize = start;
    while i < s.len()
        invariant
            start <= i <= s@.len(),
            radix == 2 || radix == 10 || radix == 16,
            spec_parse_digits(s@.subrange(start as int, i as int), radix as nat) == Some(v as nat),
            v <= u32::MAX + 1,
        decreases s@.len() - i,
    {
        let c = s[i];
        proof {
            assert(s@.subrange(start as int, i + 1).drop_last() =~= s@.subrange(start as int, i as int));
            assert(s@.subrange(start as int, i + 1).last() == c);
        }
        if c != 95u8 {
            let d: u64 = if 48 <= c && c <= 57 && ((c - 48) as u64) < radix {
                (c - 48) as u64
            } else if radix == 16 && 97 <= c && c <= 102 {
                (c - 87) as u64
            } else if radix == 16 && 65 <= c && c <= 70 {
                (c - 55) as u64
            } else {
                proof {
                    lemma_parse_digits_invalid(s@.skip(start as int), radix as nat, (i - start) as nat);
                    assert(s@.skip(start as int).subrange(0, i - start + 1) =~= s@.subrange(start as int, i + 1));
                }
                return None;
            };
            if v > (u32::MAX as u64 + 1 - d) / radix {
                proof {
                    lemma_parse_digits_grows(s@.skip(start as int), radix as nat, (i - start + 1) as nat);
                    assert(s@.skip(start as int).subrange(0, i - start + 1) =~= s@.subrange(start as int, i + 1));
                    assert(v * radix + d > u32::MAX + 1) by (nonlinear_arith)
                        requires v > (u32::MAX + 1 - d) / (radix as int), radix > 0, d >= 0;
                }
                return None;
            }
            proof {
                assert(v * radix + d <= u32::MAX + 1) by (nonlinear_arith)
                    requires v <= (u32::MAX + 1 - d) / (radix as int), radix > 0, d <= u32::MAX + 1;
            }
            v = v * radix + d;
        }
        i = i + 1;
    }
    proof {
        assert(s@.subrange(start as int, s@.len() as int) =~= s@.skip(start as int));
    }
    Some(v)
}

/// A prefix with an invalid digit makes the whole text invalid.
proof fn lemma_parse_digits_invalid(s: Seq<u8>, radix: nat, k: nat)
    requires
        k < s.len(),
        s[k as int] != 95u8,
        digit_value(s[k as int], radix) is None,
    ensures
        spec_parse_digits(s.subrange(0, (k + 1) as int), radix) is None,
        spec_parse_digits(s, radix) is None,
    decreases s.len(),
{
    assert(s.subrange(0, (k + 1) as int).drop_last() =~= s.subrange(0, k as int));
    if k + 1 < s.len() {
        lemma_parse_digits_invalid(s.drop_last(), radix, k);
        assert(s.drop_last().subrange(0, (k + 1) as int) =~= s.subrange(0, (k + 1) as int));
    } else {
        assert(s.subrange(0, (k + 1) as int) =~= s);
    }
}

/// The value of digits never decreases as digits are added.
proof fn lemma_parse_digits_grows(s: Seq<u8>, radix: nat, k: nat)
    requires
        k <= s.len(),
        radix >= 1,
    ensures
        spec_parse_digits(s.subrange(0, k as int), radix) matches Some(a) ==> (spec_parse_digits(s, radix) matches Some(b) ==> a <= b)
            || spec_parse_digits(s, radix) is None,
        spec_parse_digits(s.subrange(0, k as int), radix) is None ==> spec_parse_digits(s, radix) is None,
    decreases s.len(),
{
    if k < s.len() {
        lemma_parse_digits_grows(s.drop_last(), radix, k);
        assert(s.drop_last().subrange(0, k as int) =~= s.subrange(0, k as int));
        if let Some(v) = spec_parse_digits(s.drop_last(), radix) {
            if s.last() != 95u8 {
                if let Some(d) = digit_value(s.last(), radix) {
                    assert(v <= v * radix + d) by (nonlinear_arith)
                        requires radix >= 1;
                }
            }
        }
    } else {
        assert(s.subrange(0, k as int) =~= s);
    }
}

/// Whether every byte of `s` is a digit in `radix` or a separator.
pub open spec fn all_digits(s: Seq<u8>, radix: nat) -> bool {
    forall|i: int| 0 <= i < s.len() ==> (#[trigger] s[i]) == 95u8 || digit_value(s[i], radix) is Some
}

/// Digits have a value exactly when they are all digits or separators.
proof fn lemma_parse_digits_some(s: Seq<u8>, radix: nat)
    ensures
        spec_parse_digits(s, radix) is Some <==> all_digits(s, radix),
    decreases s.len(),
{
    if s.len() > 0 {
        lemma_parse_digits_some(s.drop_last(), radix);
        if all_digits(s, radix) {
            assert forall|i: int| 0 <= i < s.drop_last().len() implies (#[trigger] s.drop_last()[i]) == 95u8
                || digit_value(s.drop_last()[i], radix) is Some by {
                assert(s.drop_last()[i] == s[i]);
            }
            assert(s.last() == s[s.len() - 1]);
        } else {
            let k = choose|i: int| 0 <= i < s.len() && !((#[trigger] s[i]) == 95u8 || digit_value(s[i], radix) is Some);
            if k < s.len() - 1 {
                assert(s.drop_last()[k] == s[k]);
            }
        }
    }
}

fn digits_valid(s: &[u8], start: usize, radix: u64) -> (r: bool)
    requires
        start <= s@.len(),
        radix == 2 || radix == 10 || radix == 16,
    ensures
        r == all_digits(s@.skip(start as int), radix as nat),
{
    let mut i: usize = start;
    while i < s.len()
        invariant
            start <= i <= s@.len(),
            radix == 2 || radix == 10 || radix == 16,
            forall|j: int| start <= j < i ==> (#[trigger] s@[j]) == 95u8 || digit_value(s@[j], radix as nat) is Some,
        decreases s@.len() - i,
    {
        let c = s[i];
        let ok = c == 95u8 || (48 <= c && c <= 57 && ((c - 48) as u64) < radix)
            || (radix == 16 && 97 <= c && c <= 102) || (radix == 16 && 65 <= c && c <= 70);
        if !ok {
            proof {
                assert(s@.skip(start as int)[i - start] == s@[i as int]);
            }
            return false;
        }
        i = i + 1;
    }
    proof {
        assert forall|j: int| 0 <= j < s@.skip(start as int).len() implies (#[trigger] s@.skip(start as int)[j]) == 95u8
            || digit_value(s@.skip(start as int)[j], radix as nat) is Some by {
            assert(s@.skip(start as int)[j] == s@[j + start]);
        }
    }
    true
}

/// Whether the text is an integer literal: decimal digits, or digits
/// after `0x` or `0b`.
pub fn is_integer_literal(text: &String) -> (r: bool)
    ensures
        r == spec_literal_integer(vstd::utf8::encode_utf8(text@)) is Some,
{
    let s = text.as_str().as_bytes();
    proof {
        assert(s@ == vstd::utf8::encode_utf8(text@));
    }
    if s.len() == 0 {
        return false;
    }
    if s.len() > 2 && s[0] == 48u8 && (s[1] == 120u8 || s[1] == 88u8) {
        proof { lemma_parse_digits_some(s@.skip(2), 16); }
        digits_valid(s, 2, 16)
    } else if s.len() > 2 && s[0] == 48u8 && (s[1] == 98u8 || s[1] == 66u8) {
        proof { lemma_parse_digits_some(s@.skip(2), 2); }
        digits_valid(s, 2, 2)
    } else {
        proof {
            assert(s@.skip(0) =~= s@);
            lemma_parse_digits_some(s@, 10);
        }
        digits_valid(s, 0, 10)
    }
}

fn literal_integer(text: &String) -> (r: Option<u64>)
    ensures
        match r {
            Some(v) => spec_literal_integer(vstd::utf8::encode_utf8(text@)) == Some(v as nat) && v <= u32::MAX + 1,
            None => spec_literal_integer(vstd::utf8::encode_utf8(text@)) matches Some(v) ==> v > u32::MAX + 1,
        },
{
    let s = text.as_str().as_bytes();
    proof {
        assert(s@ == vstd::utf8::encode_utf8(text@));
    }
    if s.len() == 0 {
        return None;
    }
    let r = if s.len() > 2 && s[0] == 48u8 && (s[1] == 120u8 || s[1] == 88u8) {
        parse_digits(s, 2, 16)
    } else if s.len() > 2 && s[0] == 48u8 && (s[1] == 98u8 || s[1] == 66u8) {
        parse_digits(s, 2, 2)
    } else {
        proof {
            assert(s@.skip(0) =~= s@);
        }
        parse_digits(s, 0, 10)
    };
    r
}

impl ExpSubverifier {
    /// The value of a numeric literal as a `Number`.
    pub fn number_value(text: &String, negative: bool) -> (r: NumberValue)
        ensures
            r == spec_number_value(text@, negative),
    {
        match literal_integer(text) {
            Some(n) => {
                let v: i64 = n as i64;
                if negative { NumberValue::Integer(-v) } else { NumberValue::Integer(v) }
            },
            None => NumberValue::Real,
        }
    }

    /// Parses the text of a numeric literal as a constant of `data_type`.
    pub fn parse_number_as_data_type(text: &String, data_type: &Ty, context: &VerifierExpressionContext) -> (r: Result<NumberValue, ()>)
        requires
            is_numeric(*data_type),
        ensures
            r == spec_parse_number(text@, *data_type, context.preceded_by_negative),
    {
        if matches!(data_type, Ty::Number) {
            return Ok(Self::number_value(text, context.preceded_by_negative));
        }
        if matches!(data_type, Ty::Float) {
            return Ok(NumberValue::Real);
        }
        match literal_integer(text) {
            None => Err(()),
            Some(n) => {
                if matches!(data_type, Ty::Int) {
                    if context.preceded_by_negative {
                        if n <= 2147483648u64 {
                            let v: i64 = -(n as i64);
                            Ok(NumberValue::Int(v as i32))
                        } else {
                            Err(())
                        }
                    } else {
                        if n <= 2147483647u64 {
                            Ok(NumberValue::Int(n as i32))
                        } else {
                            Err(())
                        }
                    }
                } else {
                    if n <= 4294967295u64 {
                        Ok(NumberValue::Uint(n as u32))
                    } else {
                        Err(())
                    }
                }
            },
        }
    }
}

/// The type of a literal whose natural type is `natural`: the context type,
/// when it is `*`, `Object` or `natural` (possibly nullable or non-nullable),
/// otherwise `natural`.
pub open spec fn spec_literal_type(context: VerifierExpressionContext, natural: Ty) -> Ty {
    match context.context_type {
        Some(t) => {
            let e = spec_escape_of_nullable_or_non_nullable(t);
            if e == Ty::Any || e == Ty::Object || e == natural { t } else { natural }
        },
        None => natural,
    }
}

pub fn literal_type(context: &VerifierExpressionContext, natural: Ty) -> (r: Ty)
    ensures
        r == spec_literal_type(*context, natural),
{
    match &context.context_type {
        Some(t) => {
            let e = escape_of_nullable_or_non_nullable(t);
            if e.is(Ty::Any) || e.is(Ty::Object) || e.same(&natural) { t.clone() } else { natural }
        },
        None => natural,
    }
}

/// The namespace kind of a reserved namespace expression.
pub open spec fn spec_reserved_ns_kind(ns: ReservedNamespace) -> SystemNamespaceKind {
    match ns {
        ReservedNamespace::Public => SystemNamespaceKind::Public,
        ReservedNamespace::Private => SystemNamespaceKind::Private,
        ReservedNamespace::Protected => SystemNamespaceKind::Protected,
        ReservedNamespace::Internal => SystemNamespaceKind::Internal,
    }
}

/// The type that a verified type expression gave, if it gave one.
pub open spec fn type_result(v: Subverifier, id: u64) -> Option<Ty> {
    match v.result_of(id) {
        Some(Entity::TypeReference { ty }) => Some(ty),
        _ => None,
    }
}

/// The result of a conditional expression whose branches gave `conseq` and `alt`.
pub open spec fn spec_conditional_result(types: Seq<TypeDef>, conseq: Entity, alt: Entity) -> Option<Entity> {
    if spec_implicit(types, alt, conseq.spec_static_type()) is Some {
        Some(Entity::Value { ty: conseq.spec_static_type() })
    } else if spec_implicit(types, conseq, alt.spec_static_type()) is Some {
        Some(Entity::Value { ty: alt.spec_static_type() })
    } else {
        None
    }
}

/// What a sequence expression gives: a value of the type of its right operand.
pub open spec fn seq_exp_done(old: Subverifier, new: Subverifier, exp: Expression, res: Option<Entity>) -> bool {
    res == (match new.value_of(exp.kind->Sequence_right.id) {
        Some(v) => Some(Entity::Value { ty: v.spec_static_type() }),
        None => None,
    })
}

/// What a conditional expression gives: a value of the type its branches share, or nothing, with an error, where they share none.
pub open spec fn conditional_exp_done(old: Subverifier, new: Subverifier, exp: Expression, res: Option<Entity>) -> bool {
    match (new.value_of(exp.kind->Conditional_consequent.id),
        new.value_of(exp.kind->Conditional_alternative.id)) {
        (Some(c), Some(a)) => res == spec_conditional_result(new.host.types@, c, a)
            && (res is None ==> new.spec_has_error_at(exp.location)
                && reported(old, new, exp.location, DiagnosticKind::UnrelatedTernaryOperands)),
        _ => res is None,
    }
}

/// What a nullable type expression `T?` gives.
pub open spec fn nullable_type_exp_done(old: Subverifier, new: Subverifier, exp: Expression, res: Option<Entity>) -> bool {
    res == (match type_result(new, exp.kind->NullableType_base.id) {
        Some(b) => Some(Entity::TypeReference { ty: Ty::Nullable(Box::new(b)) }),
        None => None,
    })
}

/// What a non-nullable type expression `T!` gives.
pub open spec fn non_nullable_type_exp_done(old: Subverifier, new: Subverifier, exp: Expression, res: Option<Entity>) -> bool {
    res == (match type_result(new, exp.kind->NonNullableType_base.id) {
        Some(b) => if spec_includes_null(b) || spec_includes_undefined(b) {
            Some(Entity::TypeReference { ty: Ty::NonNullable(Box::new(b)) })
        } else {
            Some(Entity::TypeReference { ty: b })
        },
        None => None,
    })
}

/// What an array type expression `[T]` gives.
pub open spec fn array_type_exp_done(old: Subverifier, new: Subverifier, exp: Expression, res: Option<Entity>) -> bool {
    res == (match type_result(new, exp.kind->ArrayType_expression.id) {
        Some(e) => Some(Entity::TypeReference { ty: Ty::ArrayOf(Box::new(e)) }),
        None => None,
    })
}

impl ExpSubverifier {
    pub fn verify_null_literal(verifier: &mut Subverifier, exp: &Expression, context: &VerifierExpressionContext) -> (r: Result<Option<Entity>, DeferError>)
        ensures
            final(verifier).step(*old(verifier)),
            match context.context_type {
                Some(t) => if spec_includes_null(t) {
                    r == ok(Some(Entity::NullConstant { ty: t })) && *final(verifier) == *old(verifier)
                } else {
                    r == ok(None) && final(verifier).spec_error_added(*old(verifier), exp.location, DiagnosticKind::NullNotExpectedHere, false)
                },
                None => r == ok(Some(Entity::NullConstant { ty: Ty::Any })) && *final(verifier) == *old(verifier),
            },
    {
        if let Some(t) = &context.context_type {
            if includes_null(t) {
                return Ok(Some(Entity::NullConstant { ty: t.clone() }));
            } else {
                verifier.add_verify_error(&exp.location, DiagnosticKind::NullNotExpectedHere);
                return Ok(None);
            }
        }
        Ok(Some(Entity::NullConstant { ty: Ty::Any }))
    }

    pub fn verify_boolean_literal(verifier: &mut Subverifier, exp: &Expression, context: &VerifierExpressionContext) -> (r: Result<Option<Entity>, DeferError>)
        requires
            exp.kind is BooleanLiteral,
        ensures
            r == ok(Some(Entity::BooleanConstant {
                value: exp.kind->BooleanLiteral_value,
                ty: spec_literal_type(*context, Ty::Boolean),
            })),
            *final(verifier) == *old(verifier),
    {
        let value = match &exp.kind {
            ExpressionKind::BooleanLiteral { value } => *value,
            _ => false,
        };
        Ok(Some(Entity::BooleanConstant { value, ty: literal_type(context, Ty::Boolean) }))
    }

    pub fn verify_numeric_literal(verifier: &mut Subverifier, exp: &Expression, context: &VerifierExpressionContext) -> (r: Result<Option<Entity>, DeferError>)
        requires
            exp.kind is NumericLiteral,
        ensures
            final(verifier).step(*old(verifier)),
            ({
                let text = exp.kind->NumericLiteral_value;
                match context.context_type {
                    Some(t) if is_numeric(spec_escape_of_nullable_or_non_nullable(t)) =>
                        match spec_parse_number(text@, spec_escape_of_nullable_or_non_nullable(t), context.preceded_by_negative) {
                            Ok(v) => r == ok(Some(Entity::NumberConstant { value: v, ty: t })) && *final(verifier) == *old(verifier),
                            Err(_) => r == ok(None) && final(verifier).spec_error_added(*old(verifier), exp.location,
                                DiagnosticKind::CouldNotParseNumber, false),
                        },
                    _ => r == ok(Some(if exp.kind->NumericLiteral_suffix == NumberSuffix::F {
                        Entity::NumberConstant { value: NumberValue::Real, ty: Ty::Float }
                    } else {
                        Entity::NumberConstant { value: spec_number_value(text@, context.preceded_by_negative), ty: Ty::Number }
                    })) && *final(verifier) == *old(verifier),
                }
            }),
    {
        let (text, suffix) = match &exp.kind {
            ExpressionKind::NumericLiteral { value, suffix } => (value, *suffix),
            _ => { proof { assert(false); } return Ok(None); },
        };
        if let Some(t) = &context.context_type {
            let t_esc = escape_of_nullable_or_non_nullable(t);
            if numeric(&t_esc) {
                match Self::parse_number_as_data_type(text, &t_esc, context) {
                    Ok(n) => return Ok(Some(Entity::NumberConstant { value: n, ty: t.clone() })),
                    Err(()) => {
                        verifier.add_verify_error(&exp.location, DiagnosticKind::CouldNotParseNumber);
                        return Ok(None);
                    },
                }
            }
        }
        if suffix == NumberSuffix::F {
            Ok(Some(Entity::NumberConstant { value: NumberValue::Real, ty: Ty::Float }))
        } else {
            Ok(Some(Entity::NumberConstant { value: Self::number_value(text, context.preceded_by_negative), ty: Ty::Number }))
        }
    }

    pub fn verify_string_literal(verifier: &mut Subverifier, exp: &Expression, context: &VerifierExpressionContext) -> (r: Result<Option<Entity>, DeferError>)
        requires
            exp.kind is StringLiteral,
        ensures
            final(verifier).step(*old(verifier)),
            ({
                let value = exp.kind->StringLiteral_value;
                match context.context_type {
                    Some(t) if old(verifier).host.is_enum(spec_escape_of_nullable_or_non_nullable(t)) => {
                        let e = spec_escape_of_nullable_or_non_nullable(t);
                        if crate::resolution::names_contain(old(verifier).host.def_of(e).unwrap()->Enum_0.members@, value@) {
                            r == ok(spec_implicit(old(verifier).host.types@, crate::resolution::spec_enum_member(e, value), t))
                                && *final(verifier) == *old(verifier)
                        } else {
                            r == ok(None) && final(verifier).spec_error_added(*old(verifier), exp.location,
                                DiagnosticKind::NoMatchingEnumMember, false)
                        }
                    },
                    _ => r == ok(Some(Entity::StringConstant { value, ty: Ty::String })) && *final(verifier) == *old(verifier),
                }
            }),
    {
        let value = match &exp.kind {
            ExpressionKind::StringLiteral { value } => value,
            _ => { proof { assert(false); } return Ok(None); },
        };
        if let Some(t) = &context.context_type {
            let t_esc = escape_of_nullable_or_non_nullable(t);
            if let Some(TypeDef::Enum(e)) = verifier.host.get_def(&t_esc) {
                if crate::resolution::contains_name(&e.members, value) {
                    let k = crate::resolution::enum_member(&t_esc, value);
                    return Ok(verifier.host.implicit(&k, t));
                } else {
                    verifier.add_verify_error(&exp.location, DiagnosticKind::NoMatchingEnumMember);
                    return Ok(None);
                }
            }
        }
        Ok(Some(Entity::StringConstant { value: value.clone(), ty: Ty::String }))
    }

    pub fn verify_this_literal(verifier: &mut Subverifier, exp: &Expression) -> (r: Result<Option<Entity>, DeferError>)
        ensures
            final(verifier).step(*old(verifier)),
            match spec_this_type(old(verifier).host.scopes@, old(verifier).scope) {
                Some(t) => r == ok(Some(Entity::ThisObject { ty: t })) && *final(verifier) == *old(verifier),
                None => r == ok(None) && final(verifier).spec_error_added(*old(verifier), exp.location,
                    DiagnosticKind::UnexpectedThis, false),
            },
    {
        match verifier.this_type() {
            Some(t) => Ok(Some(Entity::ThisObject { ty: t })),
            None => {
                verifier.add_verify_error(&exp.location, DiagnosticKind::UnexpectedThis);
                Ok(None)
            },
        }
    }

    pub fn verify_reg_exp_literal(verifier: &mut Subverifier, exp: &Expression, context: &VerifierExpressionContext) -> (r: Result<Option<Entity>, DeferError>)
        ensures
            r == ok(Some(Entity::Value { ty: spec_literal_type(*context, Ty::RegExp) })),
            *final(verifier) == *old(verifier),
    {
        Ok(Some(Entity::Value { ty: literal_type(context, Ty::RegExp) }))
    }

    pub fn verify_seq_exp(verifier: &mut Subverifier, exp: &Expression) -> (r: Result<Option<Entity>, DeferError>)
        requires
            old(verifier).scope is Some,
            exp.kind is Sequence,
        ensures
            final(verifier).step(*old(verifier)),
            r matches Ok(res) ==> seq_exp_done(*old(verifier), *final(verifier), *exp, res),
            old(verifier).is_verified(exp.kind->Sequence_left.id) && old(verifier).is_verified(exp.kind->Sequence_right.id)
                ==> r is Ok && *final(verifier) == *old(verifier),
        decreases exp, 1nat,
    {
        let (left, right) = match &exp.kind {
            ExpressionKind::Sequence { left, right } => (left, right),
            _ => { proof { assert(false); } return Ok(None); },
        };
        verifier.verify_expression(left, &default_context())?;
        match verifier.verify_expression(right, &default_context())? {
            None => Ok(None),
            Some(v) => Ok(Some(Entity::Value { ty: v.static_type() })),
        }
    }

    pub fn verify_reserved_ns_exp(verifier: &mut Subverifier, exp: &Expression) -> (r: Result<Option<Entity>, DeferError>)
        requires
            exp.kind is ReservedNamespace,
        ensures
            final(verifier).step(*old(verifier)),
            ({
                let kind = spec_reserved_ns_kind(exp.kind->ReservedNamespace_namespace);
                if spec_system_ns_available(old(verifier).host.scopes@, old(verifier).scope, kind) {
                    r == ok(Some(Entity::NamespaceConstant { kind })) && *final(verifier) == *old(verifier)
                } else {
                    r == ok(None) && final(verifier).spec_error_added(*old(verifier), exp.location,
                        DiagnosticKind::SystemNamespaceNotFound, false)
                }
            }),
    {
        let kind = match &exp.kind {
            ExpressionKind::ReservedNamespace { namespace } => match namespace {
                ReservedNamespace::Public => SystemNamespaceKind::Public,
                ReservedNamespace::Private => SystemNamespaceKind::Private,
                ReservedNamespace::Protected => SystemNamespaceKind::Protected,
                ReservedNamespace::Internal => SystemNamespaceKind::Internal,
            },
            _ => { proof { assert(false); } return Ok(None); },
        };
        if verifier.system_ns_available(kind) {
            Ok(Some(Entity::NamespaceConstant { kind }))
        } else {
            verifier.add_verify_error(&exp.location, DiagnosticKind::SystemNamespaceNotFound);
            Ok(None)
        }
    }

    pub fn verify_nullable_type_exp(verifier: &mut Subverifier, exp: &Expression) -> (r: Result<Option<Entity>, DeferError>)
        requires
            old(verifier).scope is Some,
            exp.kind is NullableType,
        ensures
            final(verifier).step(*old(verifier)),
            r matches Ok(res) ==> nullable_type_exp_done(*old(verifier), *final(verifier), *exp, res),
            old(verifier).is_verified(exp.kind->NullableType_base.id) ==> r is Ok && *final(verifier) == *old(verifier),
        decreases exp, 1nat,
    {
        let base = match &exp.kind {
            ExpressionKind::NullableType { base } => base,
            _ => { proof { assert(false); } return Ok(None); },
        };
        match verifier.verify_type_expression(base)? {
            None => Ok(None),
            Some(b) => Ok(Some(Entity::TypeReference { ty: Ty::Nullable(Box::new(b)) })),
        }
    }

    pub fn verify_non_nullable_type_exp(verifier: &mut Subverifier, exp: &Expression) -> (r: Result<Option<Entity>, DeferError>)
        requires
            old(verifier).scope is Some,
            exp.kind is NonNullableType,
        ensures
            final(verifier).step(*old(verifier)),
            r matches Ok(res) ==> non_nullable_type_exp_done(*old(verifier), *final(verifier), *exp, res),
            old(verifier).is_verified(exp.kind->NonNullableType_base.id) ==> r is Ok && *final(verifier) == *old(verifier),
        decreases exp, 1nat,
    {
        let base = match &exp.kind {
            ExpressionKind::NonNullableType { base } => base,
            _ => { proof { assert(false); } return Ok(None); },
        };
        match verifier.verify_type_expression(base)? {
            None => Ok(None),
            Some(b) => {
                if !(includes_null(&b) || includes_undefined(&b)) {
                    Ok(Some(Entity::TypeReference { ty: b }))
                } else {
                    Ok(Some(Entity::TypeReference { ty: Ty::NonNullable(Box::new(b)) }))
                }
            },
        }
    }

    pub fn verify_array_type_exp(verifier: &mut Subverifier, exp: &Expression) -> (r: Result<Option<Entity>, DeferError>)
        requires
            old(verifier).scope is Some,
            exp.kind is ArrayType,
        ensures
            final(verifier).step(*old(verifier)),
            r matches Ok(res) ==> array_type_exp_done(*old(verifier), *final(verifier), *exp, res),
            old(verifier).is_verified(exp.kind->ArrayType_expression.id) ==> r is Ok && *final(verifier) == *old(verifier),
        decreases exp, 1nat,
    {
        let element = match &exp.kind {
            ExpressionKind::ArrayType { expression } => expression,
            _ => { proof { assert(false); } return Ok(None); },
        };
        match verifier.verify_type_expression(element)? {
            None => Ok(None),
            Some(e) => Ok(Some(Entity::TypeReference { ty: Ty::ArrayOf(Box::new(e)) })),
        }
    }

    pub fn verify_tuple_type_exp(verifier: &mut Subverifier, exp: &Expression) -> (r: Result<Option<Entity>, DeferError>)
        requires
            old(verifier).scope is Some,
            exp.kind is TupleType,
        ensures
            final(verifier).step(*old(verifier)),
            r matches Ok(res) ==> {
                let elems = exp.kind->TupleType_expressions@;
                &&& (forall|i: int| 0 <= i < elems.len() ==> type_result(*final(verifier), (#[trigger] elems[i]).id) is Some) ==> {
                    &&& res matches Some(Entity::TypeReference { ty: Ty::Def(k) })
                    &&& final(verifier).host.def_of(Ty::Def(k)) matches Some(TypeDef::Tuple(ts))
                    &&& ts@.len() == elems.len()
                    &&& forall|i: int| 0 <= i < elems.len() ==> type_result(*final(verifier), (#[trigger] elems[i]).id) == Some(ts@[i])
                }
                &&& (exists|i: int| 0 <= i < elems.len() && type_result(*final(verifier), (#[trigger] elems[i]).id) is None) ==> res is None
            },
            (forall|i: int| 0 <= i < exp.kind->TupleType_expressions@.len()
                ==> old(verifier).is_verified((#[trigger] exp.kind->TupleType_expressions@[i]).id)) ==> r is Ok,
        decreases exp, 1nat,
    {
        let elems = match &exp.kind {
            ExpressionKind::TupleType { expressions } => expressions,
            _ => { proof { assert(false); } return Ok(None); },
        };
        let ghost start = *verifier;
        let mut elem_types: Vec<Ty> = Vec::new();
        let mut error = false;
        let mut i: usize = 0;
        while i < elems.len()
            invariant
                i <= elems@.len(),
                exp.kind is TupleType,
                exp.kind->TupleType_expressions == *elems,
                start == *old(verifier),
                verifier.step(start),
                verifier.scope is Some,
                !error ==> elem_types@.len() == i,
                !error ==> forall|j: int| 0 <= j < i ==> type_result(*verifier, (#[trigger] elems@[j]).id) == Some(elem_types@[j]),
                error ==> exists|j: int| 0 <= j < i && type_result(*verifier, (#[trigger] elems@[j]).id) is None,
                forall|j: int| 0 <= j < i ==> verifier.host.node_mapping@.contains_key((#[trigger] elems@[j]).id),
                (forall|j: int| 0 <= j < elems@.len() ==> start.is_verified((#[trigger] elems@[j]).id)) ==> *verifier == start,
            decreases elems@.len() - i,
        {
            let ghost before = *verifier;
            proof {
                assert(decreases_to!(*exp => exp.kind));
                assert(decreases_to!(exp.kind => exp.kind->TupleType_expressions));
                assert(decreases_to!(exp.kind->TupleType_expressions => elems@));
                assert(decreases_to!(elems@ => elems@[i as int]));
            }
            let t = verifier.verify_type_expression(&elems[i]);
            proof {
                lemma_results_stable(before, *verifier);
                lemma_step_trans(start, before, *verifier);
            }
            let t = t?;
            match t {
                None => { error = true; },
                Some(t) => {
                    if !error {
                        elem_types.push(t);
                    }
                },
            }
            i = i + 1;
        }
        if error {
            return Ok(None);
        }
        let ghost before = *verifier;
        let ghost ets = elem_types@;
        let t = verifier.host.create_tuple_type(elem_types);
        proof {
            lemma_results_stable(before, *verifier);
            assert(verifier.step(start));
            assert(i == elems@.len());
            assert forall|j: int| 0 <= j < elems@.len() implies type_result(*verifier, (#[trigger] elems@[j]).id) == Some(ets[j]) by {
                assert(before.host.node_mapping@.contains_key(elems@[j].id));
            }
            assert(verifier.host.def_of(t) matches Some(TypeDef::Tuple(ts)) && ts@ == ets);
        }
        Ok(Some(Entity::TypeReference { ty: t }))
    }

    pub fn verify_conditional_exp(verifier: &mut Subverifier, exp: &Expression, context: &VerifierExpressionContext) -> (r: Result<Option<Entity>, DeferError>)
        requires
            old(verifier).scope is Some,
            exp.kind is Conditional,
        ensures
            final(verifier).step(*old(verifier)),
            r matches Ok(res) ==> conditional_exp_done(*old(verifier), *final(verifier), *exp, res),
            old(verifier).is_verified(exp.kind->Conditional_test.id) && old(verifier).is_verified(exp.kind->Conditional_consequent.id)
                && old(verifier).is_verified(exp.kind->Conditional_alternative.id) ==> r is Ok,
        decreases exp, 1nat,
    {
        let (test, consequent, alternative) = match &exp.kind {
            ExpressionKind::Conditional { test, consequent, alternative } => (test, consequent, alternative),
            _ => { proof { assert(false); } return Ok(None); },
        };
        verifier.verify_expression(test, &default_context())?;
        let ctx1 = VerifierExpressionContext::with_type(crate::semantics::clone_opt_ty(&context.context_type));
        let conseq = match verifier.verify_expression(consequent, &ctx1)? {
            None => {
                let ghost before = *verifier;
                verifier.verify_expression(alternative, &ctx1)?;
                proof { lemma_results_stable(before, *verifier); }
                return Ok(None);
            },
            Some(c) => c,
        };
        let conseq_st = conseq.static_type();
        let ctx2 = VerifierExpressionContext::with_type(match &context.context_type {
            Some(t) => Some(t.clone()),
            None => Some(conseq_st.clone()),
        });
        let ghost before = *verifier;
        let alt = match verifier.verify_expression(alternative, &ctx2)? {
            None => {
                proof { lemma_results_stable(before, *verifier); }
                return Ok(None);
            },
            Some(a) => a,
        };
        proof { lemma_results_stable(before, *verifier); }
        let alt_st = alt.static_type();
        if verifier.host.implicit(&alt, &conseq_st).is_some() {
            return Ok(Some(Entity::Value { ty: conseq_st }));
        }
        if verifier.host.implicit(&conseq, &alt_st).is_some() {
            return Ok(Some(Entity::Value { ty: alt_st }));
        }
        let ghost before2 = *verifier;
        verifier.add_verify_error(&exp.location, DiagnosticKind::UnrelatedTernaryOperands);
        proof {
            lemma_results_stable(before2, *verifier);
            crate::subverifier::lemma_reported_by_add(before2, *verifier, exp.location, DiagnosticKind::UnrelatedTernaryOperands);
            crate::subverifier::lemma_reported_widen(*old(verifier), before2, *verifier, *verifier, exp.location,
                DiagnosticKind::UnrelatedTernaryOperands);
        }
        Ok(None)
    }
}

/// Verification steps compose.
pub proof fn lemma_step_trans(a: Subverifier, b: Subverifier, c: Subverifier)
    requires
        b.step(a),
        c.step(b),
    ensures
        c.step(a),
{
    assert forall|i: int, j: int| 0 <= i < a.host.scopes@.len() && 0 <= j < a.host.scopes@[i].properties@.len()
        implies j < c.host.scopes@[i].properties@.len()
            && c.host.scopes@[i].properties@[j].name == a.host.scopes@[i].properties@[j].name by {
        assert(b.host.scopes@[i].properties@[j].name == a.host.scopes@[i].properties@[j].name);
    }
    assert forall|k: u64| #[trigger] a.host.node_mapping@.contains_key(k) implies
        (c.host.node_invalidation_mapping@.contains_key(k) == a.host.node_invalidation_mapping@.contains_key(k)) by {
        assert(b.host.node_mapping@.contains_key(k));
    }
    assert forall|i: int| 0 <= i < a.host.scopes@.len() implies {
        &&& (#[trigger] c.host.scopes@[i]).kind == a.host.scopes@[i].kind
        &&& a.host.scopes@[i].parent is Some ==> c.host.scopes@[i].parent == a.host.scopes@[i].parent
    } by {
        assert(b.host.scopes@[i].kind == a.host.scopes@[i].kind);
    }
    assert forall|i: int| 0 <= i < a.host.diagnostics@.len() implies #[trigger] c.host.diagnostics@[i] == a.host.diagnostics@[i] by {
        assert(b.host.diagnostics@[i] == a.host.diagnostics@[i]);
    }
    assert forall|i: int| 0 <= i < a.host.types@.len() implies #[trigger] c.host.types@[i] == a.host.types@[i] by {
        assert(b.host.types@[i] == a.host.types@[i]);
    }
}

/// Verification steps compose.
pub proof fn lemma_progress_trans(a: Subverifier, b: Subverifier, c: Subverifier)
    requires
        b.progress(a),
        c.progress(b),
    ensures
        c.progress(a),
{
    assert forall|i: int, j: int| 0 <= i < a.host.scopes@.len() && 0 <= j < a.host.scopes@[i].properties@.len()
        implies j < c.host.scopes@[i].properties@.len()
            && c.host.scopes@[i].properties@[j].name == a.host.scopes@[i].properties@[j].name by {
        assert(b.host.scopes@[i].properties@[j].name == a.host.scopes@[i].properties@[j].name);
    }
    assert forall|k: u64| #[trigger] a.host.node_mapping@.contains_key(k) implies
        (c.host.node_invalidation_mapping@.contains_key(k) == a.host.node_invalidation_mapping@.contains_key(k)) by {
        assert(b.host.node_mapping@.contains_key(k));
    }
    assert forall|i: int| 0 <= i < a.host.scopes@.len() implies {
        &&& (#[trigger] c.host.scopes@[i]).kind == a.host.scopes@[i].kind
        &&& a.host.scopes@[i].parent is Some ==> c.host.scopes@[i].parent == a.host.scopes@[i].parent
    } by {
        assert(b.host.scopes@[i].kind == a.host.scopes@[i].kind);
    }
    assert forall|i: int| 0 <= i < a.host.diagnostics@.len() implies #[trigger] c.host.diagnostics@[i] == a.host.diagnostics@[i] by {
        assert(b.host.diagnostics@[i] == a.host.diagnostics@[i]);
    }
    assert forall|i: int| 0 <= i < a.host.types@.len() implies #[trigger] c.host.types@[i] == a.host.types@[i] by {
        assert(b.host.types@[i] == a.host.types@[i]);
    }
}

/// Work done inside a nested scope, entered from `a` and left again for
/// the scope of `a`, is a verification step.
pub proof fn lemma_scoped_step(a: Subverifier, b: Subverifier, c: Subverifier, d: Subverifier)
    requires
        b.progress(a),
        c.step(b),
        d.progress(c),
        d.scope == a.scope,
    ensures
        d.step(a),
{
    lemma_progress_trans(a, b, c);
    lemma_progress_trans(a, c, d);
}

/// What a node was verified to never changes afterwards: every node mapped
/// before a verification step is mapped to the same result after it.
pub proof fn lemma_results_stable(a: Subverifier, b: Subverifier)
    requires
        b.progress(a),
    ensures
        forall|id: u64| #[trigger] a.host.node_mapping@.contains_key(id) ==> b.host.node_mapping@.contains_key(id)
            && b.result_of(id) == a.result_of(id) && b.value_of(id) == a.value_of(id),
{
}
} // verus!
