//! Verification of binary and unary operations, with constant folding.
use vstd::prelude::*;
use vstd::string::StringExecFns;
use crate::ast::{Expression, ExpressionKind, Operator};
use crate::diagnostics::DiagnosticKind;
use crate::semantics::{Ty, Entity, NumberValue, MAX_EXACT_INTEGER, ConversionKind, is_numeric, numeric,
    spec_escape_of_non_nullable, spec_escape_of_nullable, spec_includes_null, spec_includes_undefined,
    escape_of_non_nullable, escape_of_nullable, includes_null, includes_undefined, spec_promise_result_type,
    promise_result_type};
use crate::subverifier::{Subverifier, VerifierExpressionContext, VerifyMode, DeferError, default_context, warning_at, exp_settles, lemma_exp_settles_stable};
use crate::resolution::spec_unrelated_types;
use crate::assignment_destructuring::AssignmentDestructuringSubverifier;
use crate::exp::{ExpSubverifier, lemma_results_stable, lemma_step_trans};

use crate::assignment_destructuring::pattern_settled;

verus! {

broadcast use vstd::std_specs::hash::group_hash_axioms;

/// The arithmetic and bitwise operators other than `+`.
pub open spec fn is_arith_operator(op: Operator) -> bool {
    match op {
        Operator::Subtract | Operator::Multiply | Operator::Divide | Operator::Remainder | Operator::Power
        | Operator::BitwiseAnd | Operator::BitwiseXor | Operator::BitwiseOr | Operator::ShiftLeft
        | Operator::ShiftRight | Operator::ShiftRightUnsigned => true,
        _ => false,
    }
}

/// `==`, `===`, `!=` and `!==`.
pub open spec fn is_equality_operator(op: Operator) -> bool {
    match op {
        Operator::Equals | Operator::StrictEquals | Operator::NotEquals | Operator::StrictNotEquals => true,
        _ => false,
    }
}

/// `<`, `>`, `<=` and `>=`.
pub open spec fn is_relational_operator(op: Operator) -> bool {
    match op {
        Operator::Lt | Operator::Gt | Operator::Le | Operator::Ge => true,
        _ => false,
    }
}

/// The operators of binary expressions.
pub open spec fn is_binary_operator(op: Operator) -> bool {
    ||| op == Operator::Add
    ||| is_arith_operator(op)
    ||| is_equality_operator(op)
    ||| is_relational_operator(op)
    ||| match op {
        Operator::Instanceof | Operator::In | Operator::NotIn | Operator::Is | Operator::IsNot | Operator::As
        | Operator::LogicalAnd | Operator::LogicalXor | Operator::LogicalOr | Operator::NullCoalescing => true,
        _ => false,
    }
}

/// Whether an arithmetic operator applies to a left operand of type `t`:
/// `*`, `Object` or a numeric type, possibly non-nullable.
pub open spec fn arith_operand(t: Ty) -> bool {
    let e = spec_escape_of_non_nullable(t);
    e == Ty::Any || e == Ty::Object || is_numeric(e)
}

/// An `int` operation on constants; `None` where it has no `int` result
/// (division by zero, or the quotient of `int.MIN / -1`). Results wrap.
pub open spec fn spec_fold_i32(op: Operator, a: i32, b: i32) -> Option<i32> {
    match op {
        Operator::Add => Some(vstd::wrapping::i32_specs::wrapping_add(a, b)),
        Operator::Subtract => Some(vstd::wrapping::i32_specs::wrapping_sub(a, b)),
        Operator::Multiply => Some(vstd::wrapping::i32_specs::wrapping_mul(a, b)),
        Operator::Divide => a.checked_div(b),
        Operator::Remainder => a.checked_rem(b),
        Operator::BitwiseAnd => Some(a & b),
        Operator::BitwiseXor => Some(a ^ b),
        Operator::BitwiseOr => Some(a | b),
        Operator::ShiftLeft => Some(vstd::wrapping::i32_specs::wrapping_shl(a, b as u32)),
        Operator::ShiftRight => Some(vstd::wrapping::i32_specs::wrapping_shr(a, b as u32)),
        Operator::ShiftRightUnsigned => Some(vstd::wrapping::u32_specs::wrapping_shr(a as u32, b as u32) as i32),
        _ => None,
    }
}

/// A `uint` operation on constants; `None` for a division by zero. Results wrap.
pub open spec fn spec_fold_u32(op: Operator, a: u32, b: u32) -> Option<u32> {
    match op {
        Operator::Add => Some(vstd::wrapping::u32_specs::wrapping_add(a, b)),
        Operator::Subtract => Some(vstd::wrapping::u32_specs::wrapping_sub(a, b)),
        Operator::Multiply => Some(vstd::wrapping::u32_specs::wrapping_mul(a, b)),
        Operator::Divide => if b == 0 { None } else { Some(a / b) },
        Operator::Remainder => if b == 0 { None } else { Some(a % b) },
        Operator::BitwiseAnd => Some(a & b),
        Operator::BitwiseXor => Some(a ^ b),
        Operator::BitwiseOr => Some(a | b),
        Operator::ShiftLeft => Some(vstd::wrapping::u32_specs::wrapping_shl(a, b)),
        Operator::ShiftRight | Operator::ShiftRightUnsigned => Some(vstd::wrapping::u32_specs::wrapping_shr(a, b)),
        _ => None,
    }
}

/// The `Number` that is exactly the integer `z`, where `Number` holds it
/// exactly; a `Number` whose value is not tracked otherwise.
pub open spec fn exact_integer(z: int) -> NumberValue {
    if -MAX_EXACT_INTEGER <= z <= MAX_EXACT_INTEGER { NumberValue::Integer(z as i64) } else { NumberValue::Real }
}

/// A `Number` operation on integers held exactly: a sum, difference or
/// product is exact while it stays within the integers a `Number` holds;
/// a quotient is exact where the division leaves no remainder, `0 / 0` is
/// NaN and any other division by zero an infinity; a remainder takes the
/// sign of the dividend, and a remainder by zero is NaN. Other operations
/// give a `Number` whose value is not tracked.
pub open spec fn spec_fold_integer(op: Operator, x: i64, y: i64) -> NumberValue {
    match op {
        Operator::Add => exact_integer(x + y),
        Operator::Subtract => exact_integer(x - y),
        Operator::Multiply => exact_integer(x * y),
        Operator::Divide => if y == 0 {
            if x == 0 { NumberValue::NaN } else { NumberValue::Real }
        } else if x.checked_rem(y) == Some(0i64) {
            match x.checked_div(y) {
                Some(q) => exact_integer(q as int),
                None => NumberValue::Real,
            }
        } else {
            NumberValue::Real
        },
        Operator::Remainder => if y == 0 {
            NumberValue::NaN
        } else {
            match x.checked_rem(y) {
                Some(m) => NumberValue::Integer(m),
                None => NumberValue::Real,
            }
        },
        _ => NumberValue::Real,
    }
}

/// The value of `a op b` for numeric constants: integers of one kind fold,
/// and so do `Number` values held exactly; NaN stays NaN; anything else is
/// a number whose value is not tracked.
pub open spec fn spec_fold_number(op: Operator, a: NumberValue, b: NumberValue) -> NumberValue {
    match (a, b) {
        (NumberValue::Integer(x), NumberValue::Integer(y)) => spec_fold_integer(op, x, y),
        (NumberValue::Int(x), NumberValue::Int(y)) => match spec_fold_i32(op, x, y) {
            Some(z) => NumberValue::Int(z),
            None => NumberValue::Real,
        },
        (NumberValue::Uint(x), NumberValue::Uint(y)) => match spec_fold_u32(op, x, y) {
            Some(z) => NumberValue::Uint(z),
            None => NumberValue::Real,
        },
        (NumberValue::NaN, _) => NumberValue::NaN,
        (_, NumberValue::NaN) => NumberValue::NaN,
        _ => NumberValue::Real,
    }
}

/// The integer a numeric constant holds, if it holds one.
pub open spec fn integer_of(v: NumberValue) -> Option<int> {
    match v {
        NumberValue::Int(x) => Some(x as int),
        NumberValue::Uint(x) => Some(x as int),
        NumberValue::Integer(x) => Some(x as int),
        _ => None,
    }
}

/// `x op y` for a comparison operator.
pub open spec fn spec_compare_ints(op: Operator, x: int, y: int) -> bool {
    match op {
        Operator::Equals | Operator::StrictEquals => x == y,
        Operator::NotEquals | Operator::StrictNotEquals => x != y,
        Operator::Lt => x < y,
        Operator::Gt => x > y,
        Operator::Le => x <= y,
        _ => x >= y,
    }
}

/// The result of comparing numeric constants, where it is known: NaN is
/// unequal to everything and unordered; integers compare by value.
pub open spec fn spec_compare_numbers(op: Operator, a: NumberValue, b: NumberValue) -> Option<bool> {
    if a == NumberValue::NaN || b == NumberValue::NaN {
        Some(op == Operator::NotEquals || op == Operator::StrictNotEquals)
    } else {
        match (integer_of(a), integer_of(b)) {
            (Some(x), Some(y)) => Some(spec_compare_ints(op, x, y)),
            _ => None,
        }
    }
}

/// The constant result of a comparison, where both operands are constants
/// that it can be computed from.
pub open spec fn spec_constant_comparison(op: Operator, l: Entity, r: Entity) -> Option<bool> {
    let negated = op == Operator::NotEquals || op == Operator::StrictNotEquals;
    if l is NumberConstant && r is NumberConstant {
        spec_compare_numbers(op, l->NumberConstant_value, r->NumberConstant_value)
    } else if is_equality_operator(op) && l is StringConstant && r is StringConstant {
        Some(if negated { l->StringConstant_value@ != r->StringConstant_value@ } else { l->StringConstant_value@ == r->StringConstant_value@ })
    } else if is_equality_operator(op) && l is BooleanConstant && r is BooleanConstant {
        Some(if negated { l->BooleanConstant_value != r->BooleanConstant_value } else { l->BooleanConstant_value == r->BooleanConstant_value })
    } else {
        None
    }
}

/// The type of `v as T`, where `r` is what `T` verified to: `T` itself when
/// it includes `null` or `undefined`, `T?` otherwise, and `*` when `r` is not a type.
pub open spec fn spec_as_result_type(r: Entity) -> Ty {
    match r.spec_as_type() {
        Some(t) => if spec_includes_null(t) || spec_includes_undefined(t) { t } else { Ty::Nullable(Box::new(t)) },
        None => Ty::Any,
    }
}

/// Whether `res` is the result of `l op r`, where `l` and `r` are what the
/// operands verified to (the right operand after any implicit coercion).
/// Whether the right operand of `op` is implicitly coerced to the type of
/// the left one (or to `Class` for `is`, `is not` and `as`).
pub open spec fn right_operand_coerced(op: Operator) -> bool {
    match op {
        Operator::Subtract | Operator::Multiply | Operator::Divide | Operator::Remainder | Operator::Power
        | Operator::BitwiseAnd | Operator::BitwiseXor | Operator::BitwiseOr | Operator::ShiftLeft
        | Operator::ShiftRight | Operator::ShiftRightUnsigned | Operator::NullCoalescing
        | Operator::Is | Operator::IsNot | Operator::As => true,
        _ => false,
    }
}

/// What the right operand `id` of `op` gave: its coerced result where it
/// is coerced, and what it is mapped to otherwise.
pub open spec fn spec_right_operand(v: Subverifier, op: Operator, id: u64) -> Option<Entity> {
    if right_operand_coerced(op) { v.result_of(id) } else { v.value_of(id) }
}

pub open spec fn spec_binary_result(op: Operator, l: Entity, r: Entity, res: Option<Entity>) -> bool {
    let ls = l.spec_static_type();
    let rs = r.spec_static_type();
    if op == Operator::Add {
        if l is NumberConstant && r is NumberConstant {
            res == Some(Entity::NumberConstant {
                value: spec_fold_number(op, l->NumberConstant_value, r->NumberConstant_value), ty: ls })
        } else if l is StringConstant && r is StringConstant {
            res matches Some(Entity::StringConstant { value, ty })
                && value@ == l->StringConstant_value@ + r->StringConstant_value@ && ty == ls
        } else if is_numeric(ls) || spec_escape_of_non_nullable(ls) == Ty::Object {
            res == Some(Entity::Value { ty: ls })
        } else {
            res == Some(Entity::Value { ty: Ty::Any })
        }
    } else if is_arith_operator(op) {
        if !arith_operand(ls) {
            res is None
        } else if op != Operator::Power && l is NumberConstant && r is NumberConstant {
            res == Some(Entity::NumberConstant {
                value: spec_fold_number(op, l->NumberConstant_value, r->NumberConstant_value), ty: ls })
        } else {
            res == Some(Entity::Value { ty: ls })
        }
    } else if is_equality_operator(op) || is_relational_operator(op) {
        match spec_constant_comparison(op, l, r) {
            Some(b) => res == Some(Entity::BooleanConstant { value: b, ty: Ty::Boolean }),
            None => res == Some(Entity::Value { ty: Ty::Boolean }),
        }
    } else if op == Operator::As {
        res == Some(Entity::Value { ty: spec_as_result_type(r) })
    } else if op == Operator::LogicalAnd || op == Operator::LogicalOr {
        if l is BooleanConstant && r is BooleanConstant {
            res == Some(Entity::BooleanConstant {
                value: if op == Operator::LogicalAnd {
                    l->BooleanConstant_value && r->BooleanConstant_value
                } else {
                    l->BooleanConstant_value || r->BooleanConstant_value
                },
                ty: Ty::Boolean,
            })
        } else if ls == Ty::Boolean && rs == Ty::Boolean {
            res == Some(Entity::Value { ty: Ty::Boolean })
        } else {
            res == Some(Entity::Value { ty: Ty::Any })
        }
    } else if op == Operator::LogicalXor {
        if ls == Ty::Boolean && rs == Ty::Boolean {
            res == Some(Entity::Value { ty: Ty::Boolean })
        } else {
            res == Some(Entity::Value { ty: Ty::Any })
        }
    } else if op == Operator::NullCoalescing {
        match r {
            Entity::Conversion { from, kind: ConversionKind::NonNullableToNullable, .. } => res == Some(Entity::Value { ty: from }),
            Entity::Conversion { ty, kind: ConversionKind::AsIsToNullable, .. } => res == Some(Entity::Value { ty: spec_escape_of_nullable(ty) }),
            _ => res == Some(Entity::Value { ty: ls }),
        }
    } else {
        res == Some(Entity::Value { ty: Ty::Boolean })
    }
}

/// Whether `l op r` reports that an arithmetic operator does not apply.
pub open spec fn spec_binary_math_error(op: Operator, l: Entity) -> bool {
    is_arith_operator(op) && !arith_operand(l.spec_static_type())
}

/// Whether `l op r` warns of a comparison between unrelated types or with NaN.
pub open spec fn spec_binary_warning(types: Seq<crate::semantics::TypeDef>, op: Operator, l: Entity, r: Entity) -> bool {
    ||| (is_equality_operator(op) || is_relational_operator(op))
        && spec_unrelated_types(types, l.spec_static_type(), r.spec_static_type())
    ||| is_equality_operator(op) && (l matches Entity::NumberConstant { value: NumberValue::NaN, .. }
        || r matches Entity::NumberConstant { value: NumberValue::NaN, .. })
}

fn fold_i32(op: Operator, a: i32, b: i32) -> (r: Option<i32>)
    ensures
        r == spec_fold_i32(op, a, b),
{
    match op {
        Operator::Add => Some(a.wrapping_add(b)),
        Operator::Subtract => Some(a.wrapping_sub(b)),
        Operator::Multiply => Some(a.wrapping_mul(b)),
        Operator::Divide => a.checked_div(b),
        Operator::Remainder => a.checked_rem(b),
        Operator::BitwiseAnd => Some(a & b),
        Operator::BitwiseXor => Some(a ^ b),
        Operator::BitwiseOr => Some(a | b),
        Operator::ShiftLeft => Some(a.wrapping_shl(b as u32)),
        Operator::ShiftRight => Some(a.wrapping_shr(b as u32)),
        Operator::ShiftRightUnsigned => Some((a as u32).wrapping_shr(b as u32) as i32),
        _ => None,
    }
}

fn fold_u32(op: Operator, a: u32, b: u32) -> (r: Option<u32>)
    ensures
        r == spec_fold_u32(op, a, b),
{
    match op {
        Operator::Add => Some(a.wrapping_add(b)),
        Operator::Subtract => Some(a.wrapping_sub(b)),
        Operator::Multiply => Some(a.wrapping_mul(b)),
        Operator::Divide => if b == 0 { None } else { Some(a / b) },
        Operator::Remainder => if b == 0 { None } else { Some(a % b) },
        Operator::BitwiseAnd => Some(a & b),
        Operator::BitwiseXor => Some(a ^ b),
        Operator::BitwiseOr => Some(a | b),
        Operator::ShiftLeft => Some(a.wrapping_shl(b)),
        Operator::ShiftRight | Operator::ShiftRightUnsigned => Some(a.wrapping_shr(b)),
        _ => None,
    }
}

fn fold_number(op: Operator, a: NumberValue, b: NumberValue) -> (r: NumberValue)
    ensures
        r == spec_fold_number(op, a, b),
{
    match (a, b) {
        (NumberValue::Integer(x), NumberValue::Integer(y)) => fold_integer(op, x, y),
        (NumberValue::Int(x), NumberValue::Int(y)) => match fold_i32(op, x, y) {
            Some(z) => NumberValue::Int(z),
            None => NumberValue::Real,
        },
        (NumberValue::Uint(x), NumberValue::Uint(y)) => match fold_u32(op, x, y) {
            Some(z) => NumberValue::Uint(z),
            None => NumberValue::Real,
        },
        (NumberValue::NaN, _) => NumberValue::NaN,
        (_, NumberValue::NaN) => NumberValue::NaN,
        _ => NumberValue::Real,
    }
}

fn exact_integer_of(z: Option<i64>) -> (r: NumberValue)
    ensures
        z is None ==> r == NumberValue::Real,
        z matches Some(x) ==> r == exact_integer(x as int),
{
    match z {
        Some(x) => if -MAX_EXACT_INTEGER <= x && x <= MAX_EXACT_INTEGER { NumberValue::Integer(x) } else { NumberValue::Real },
        None => NumberValue::Real,
    }
}

fn fold_integer(op: Operator, x: i64, y: i64) -> (r: NumberValue)
    ensures
        r == spec_fold_integer(op, x, y),
{
    match op {
        Operator::Add => exact_integer_of(x.checked_add(y)),
        Operator::Subtract => exact_integer_of(x.checked_sub(y)),
        Operator::Multiply => exact_integer_of(x.checked_mul(y)),
        Operator::Divide => if y == 0 {
            if x == 0 { NumberValue::NaN } else { NumberValue::Real }
        } else if x.checked_rem(y) == Some(0i64) {
            exact_integer_of(x.checked_div(y))
        } else {
            NumberValue::Real
        },
        Operator::Remainder => if y == 0 {
            NumberValue::NaN
        } else {
            match x.checked_rem(y) {
                Some(m) => NumberValue::Integer(m),
                None => NumberValue::Real,
            }
        },
        _ => NumberValue::Real,
    }
}

fn integer_value(v: NumberValue) -> (r: Option<i64>)
    ensures
        match r {
            Some(x) => integer_of(v) == Some(x as int),
            None => integer_of(v) is None,
        },
{
    match v {
        NumberValue::Int(x) => Some(x as i64),
        NumberValue::Uint(x) => Some(x as i64),
        NumberValue::Integer(x) => Some(x),
        _ => None,
    }
}

fn compare_numbers(op: Operator, a: NumberValue, b: NumberValue) -> (r: Option<bool>)
    ensures
        r == spec_compare_numbers(op, a, b),
{
    if a == NumberValue::NaN || b == NumberValue::NaN {
        return Some(op == Operator::NotEquals || op == Operator::StrictNotEquals);
    }
    match (integer_value(a), integer_value(b)) {
        (Some(x), Some(y)) => Some(match op {
            Operator::Equals | Operator::StrictEquals => x == y,
            Operator::NotEquals | Operator::StrictNotEquals => x != y,
            Operator::Lt => x < y,
            Operator::Gt => x > y,
            Operator::Le => x <= y,
            _ => x >= y,
        }),
        _ => None,
    }
}

fn constant_comparison(op: Operator, l: &Entity, r: &Entity) -> (res: Option<bool>)
    ensures
        res == spec_constant_comparison(op, *l, *r),
{
    let negated = op == Operator::NotEquals || op == Operator::StrictNotEquals;
    let equality = matches!(op, Operator::Equals | Operator::StrictEquals | Operator::NotEquals | Operator::StrictNotEquals);
    match (l, r) {
        (Entity::NumberConstant { value: a, .. }, Entity::NumberConstant { value: b, .. }) => compare_numbers(op, *a, *b),
        (Entity::StringConstant { value: a, .. }, Entity::StringConstant { value: b, .. }) => {
            if equality {
                let eq = *a == *b;
                Some(if negated { !eq } else { eq })
            } else {
                None
            }
        },
        (Entity::BooleanConstant { value: a, .. }, Entity::BooleanConstant { value: b, .. }) => {
            if equality {
                Some(if negated { *a != *b } else { *a == *b })
            } else {
                None
            }
        },
        _ => None,
    }
}

fn arith_operand_exec(t: &Ty) -> (r: bool)
    ensures
        r == arith_operand(*t),
{
    let e = escape_of_non_nullable(t);
    e.is(Ty::Any) || e.is(Ty::Object) || numeric(&e)
}

/// The result of `l op r`, once the operands verified and no error applies.
fn binary_value(op: Operator, l: &Entity, r: &Entity) -> (res: Option<Entity>)
    requires
        is_binary_operator(op),
    ensures
        spec_binary_result(op, *l, *r, res),
{
    let ls = l.static_type();
    let rs = r.static_type();
    match op {
        Operator::Add => {
            if let (Entity::NumberConstant { value: a, .. }, Entity::NumberConstant { value: b, .. }) = (l, r) {
                return Some(Entity::NumberConstant { value: fold_number(op, *a, *b), ty: ls });
            }
            if let (Entity::StringConstant { value: a, .. }, Entity::StringConstant { value: b, .. }) = (l, r) {
                let mut s = a.clone();
                s.append(b.as_str());
                return Some(Entity::StringConstant { value: s, ty: ls });
            }
            if numeric(&ls) || escape_of_non_nullable(&ls).is(Ty::Object) {
                Some(Entity::Value { ty: ls })
            } else {
                Some(Entity::Value { ty: Ty::Any })
            }
        },
        Operator::Subtract | Operator::Multiply | Operator::Divide | Operator::Remainder | Operator::Power
        | Operator::BitwiseAnd | Operator::BitwiseXor | Operator::BitwiseOr | Operator::ShiftLeft
        | Operator::ShiftRight | Operator::ShiftRightUnsigned => {
            if !arith_operand_exec(&ls) {
                return None;
            }
            if op != Operator::Power {
                if let (Entity::NumberConstant { value: a, .. }, Entity::NumberConstant { value: b, .. }) = (l, r) {
                    return Some(Entity::NumberConstant { value: fold_number(op, *a, *b), ty: ls });
                }
            }
            Some(Entity::Value { ty: ls })
        },
        Operator::Equals | Operator::StrictEquals | Operator::NotEquals | Operator::StrictNotEquals
        | Operator::Lt | Operator::Gt | Operator::Le | Operator::Ge => {
            match constant_comparison(op, l, r) {
                Some(b) => Some(Entity::BooleanConstant { value: b, ty: Ty::Boolean }),
                None => Some(Entity::Value { ty: Ty::Boolean }),
            }
        },
        Operator::As => {
            let t = match r.as_type() {
                Some(t) => if includes_null(&t) || includes_undefined(&t) { t } else { Ty::Nullable(Box::new(t)) },
                None => Ty::Any,
            };
            Some(Entity::Value { ty: t })
        },
        Operator::LogicalAnd | Operator::LogicalOr => {
            if let (Entity::BooleanConstant { value: a, .. }, Entity::BooleanConstant { value: b, .. }) = (l, r) {
                let v = if op == Operator::LogicalAnd { *a && *b } else { *a || *b };
                return Some(Entity::BooleanConstant { value: v, ty: Ty::Boolean });
            }
            if ls.is(Ty::Boolean) && rs.is(Ty::Boolean) {
                Some(Entity::Value { ty: Ty::Boolean })
            } else {
                Some(Entity::Value { ty: Ty::Any })
            }
        },
        Operator::LogicalXor => {
            if ls.is(Ty::Boolean) && rs.is(Ty::Boolean) {
                Some(Entity::Value { ty: Ty::Boolean })
            } else {
                Some(Entity::Value { ty: Ty::Any })
            }
        },
        Operator::NullCoalescing => {
            match r {
                Entity::Conversion { from, kind: ConversionKind::NonNullableToNullable, .. } => Some(Entity::Value { ty: from.clone() }),
                Entity::Conversion { ty, kind: ConversionKind::AsIsToNullable, .. } => Some(Entity::Value { ty: escape_of_nullable(ty) }),
                _ => Some(Entity::Value { ty: ls }),
            }
        },
        _ => Some(Entity::Value { ty: Ty::Boolean }),
    }
}

/// What a binary operation gives, from what its operands verified to.
pub open spec fn binary_exp_done(old: Subverifier, new: Subverifier, exp: Expression, res: Option<Entity>) -> bool {
    ({
        let op = exp.kind->Binary_operator;
        match (new.value_of(exp.kind->Binary_left.id), spec_right_operand(new, op, exp.kind->Binary_right.id)) {
            (Some(l), Some(rv)) => {
                &&& spec_binary_result(op, l, rv, res)
                &&& spec_binary_math_error(op, l) ==> new.spec_has_error_at(exp.location)
                &&& spec_binary_warning(new.host.types@, op, l, rv)
                    ==> warning_at(new.host.diagnostics@, exp.location.first_offset)
            },
            _ => res is None,
        }
    })
}

impl ExpSubverifier {
    /// Verifies a binary operation. The right operand is verified where a
    /// value of the left operand's type is expected for `+` and the
    /// relational operators, coerced to that type for the arithmetic
    /// operators and `??`, coerced to `Class` for `is`, `is not` and `as`,
    /// and verified plainly otherwise.
    #[verifier::spinoff_prover]
    pub fn verify_binary_exp(verifier: &mut Subverifier, exp: &Expression) -> (r: Result<Option<Entity>, DeferError>)
        requires
            old(verifier).scope is Some,
            exp.kind is Binary,
            is_binary_operator(exp.kind->Binary_operator),
        ensures
            final(verifier).step(*old(verifier)),
            r matches Ok(res) ==> binary_exp_done(*old(verifier), *final(verifier), *exp, res),
            exp_settles(*old(verifier), *exp.kind->Binary_left) && exp_settles(*old(verifier), *exp.kind->Binary_right) ==> r is Ok,
        decreases exp, 1nat,
    {
        let (op, left, right) = match &exp.kind {
            ExpressionKind::Binary { operator, left, right } => (*operator, left, right),
            _ => { proof { assert(false); } return Ok(None); },
        };
        let ghost start = *verifier;
        let l = match verifier.verify_expression(left, &default_context())? {
            None => {
                let ghost before = *verifier;
                let _ = verifier.verify_expression(right, &default_context());
                proof {
                    lemma_results_stable(before, *verifier);
                    lemma_step_trans(start, before, *verifier);
                }
                return Ok(None);
            },
            Some(l) => l,
        };
        let left_st = l.static_type();
        let ghost before = *verifier;
        proof {
            if exp_settles(start, **right) {
                lemma_exp_settles_stable(start, before, **right);
            }
        }
        let rv = match op {
            Operator::Add | Operator::Lt | Operator::Gt | Operator::Le | Operator::Ge =>
                verifier.verify_expression(right, &VerifierExpressionContext::with_type(Some(left_st.clone()))),
            Operator::Subtract | Operator::Multiply | Operator::Divide | Operator::Remainder | Operator::Power
            | Operator::BitwiseAnd | Operator::BitwiseXor | Operator::BitwiseOr | Operator::ShiftLeft
            | Operator::ShiftRight | Operator::ShiftRightUnsigned | Operator::NullCoalescing =>
                verifier.imp_coerce_exp(right, &left_st),
            Operator::Is | Operator::IsNot | Operator::As => verifier.imp_coerce_exp(right, &Ty::Class),
            _ => verifier.verify_expression(right, &default_context()),
        };
        proof {
            lemma_results_stable(before, *verifier);
            lemma_step_trans(start, before, *verifier);
        }
        let rv = match rv? {
            None => return Ok(None),
            Some(rv) => rv,
        };
        let ghost mid = *verifier;
        if matches!(op, Operator::Subtract | Operator::Multiply | Operator::Divide | Operator::Remainder | Operator::Power
            | Operator::BitwiseAnd | Operator::BitwiseXor | Operator::BitwiseOr | Operator::ShiftLeft
            | Operator::ShiftRight | Operator::ShiftRightUnsigned) && !arith_operand_exec(&left_st) {
            verifier.add_verify_error(&exp.location, DiagnosticKind::UnrelatedMathOperation);
            proof {
                lemma_results_stable(mid, *verifier);
                lemma_step_trans(start, mid, *verifier);
            }
            return Ok(None);
        }
        let equality = matches!(op, Operator::Equals | Operator::StrictEquals | Operator::NotEquals | Operator::StrictNotEquals);
        let relational = matches!(op, Operator::Lt | Operator::Gt | Operator::Le | Operator::Ge);
        if (equality || relational) && verifier.host.unrelated_types(&left_st, &rv.static_type()) {
            verifier.add_warning(&exp.location, DiagnosticKind::ComparisonBetweenUnrelatedTypes);
        }
        let ghost mid2 = *verifier;
        if equality && (matches!(l, Entity::NumberConstant { value: NumberValue::NaN, .. })
            || matches!(rv, Entity::NumberConstant { value: NumberValue::NaN, .. })) {
            verifier.add_warning(&exp.location, DiagnosticKind::NanComparison);
            proof {
                if warning_at(mid2.host.diagnostics@, exp.location.first_offset) {
                    crate::subverifier::lemma_warning_at_preserved(mid2.host.diagnostics@, verifier.host.diagnostics@,
                        exp.location.first_offset);
                }
            }
        }
        proof {
            lemma_results_stable(mid, *verifier);
            lemma_step_trans(start, mid, *verifier);
        }
        Ok(binary_value(op, &l, &rv))
    }
}

/// The operators of unary expressions.
pub open spec fn is_unary_operator(op: Operator) -> bool {
    match op {
        Operator::Await | Operator::Yield | Operator::Delete | Operator::Void | Operator::Typeof
        | Operator::PreIncrement | Operator::PreDecrement | Operator::PostIncrement | Operator::PostDecrement
        | Operator::NonNull | Operator::Positive | Operator::Negative | Operator::BitwiseNot
        | Operator::LogicalNot => true,
        _ => false,
    }
}

/// The increment and decrement operators.
pub open spec fn is_update_operator(op: Operator) -> bool {
    match op {
        Operator::PreIncrement | Operator::PreDecrement | Operator::PostIncrement | Operator::PostDecrement => true,
        _ => false,
    }
}

/// `+`, `-` and `~` as unary operators.
pub open spec fn is_numeric_unary_operator(op: Operator) -> bool {
    op == Operator::Positive || op == Operator::Negative || op == Operator::BitwiseNot
}

/// Whether `+`, `-` or `~` applies to an operand of type `t`.
pub open spec fn numeric_unary_operand(t: Ty) -> bool {
    let e = spec_escape_of_non_nullable(t);
    e == Ty::Any || e == Ty::Object || is_numeric(t)
}

/// The negation of a numeric constant: `int` values wrap; other values
/// become untracked numbers, and NaN stays NaN.
pub open spec fn spec_negate(v: NumberValue) -> NumberValue {
    match v {
        NumberValue::Int(x) => NumberValue::Int(vstd::wrapping::i32_specs::wrapping_sub(0i32, x)),
        NumberValue::Integer(x) => exact_integer(-x),
        NumberValue::NaN => NumberValue::NaN,
        _ => NumberValue::Real,
    }
}

/// The bitwise complement of a numeric constant.
pub open spec fn spec_bitwise_not(v: NumberValue) -> NumberValue {
    match v {
        NumberValue::Int(x) => NumberValue::Int(!x),
        NumberValue::Uint(x) => NumberValue::Uint(!x),
        _ => NumberValue::Real,
    }
}

/// The result of `!v` when `v` is a constant that it can be computed from.
pub open spec fn spec_logical_not(v: Entity) -> Option<bool> {
    match v {
        Entity::BooleanConstant { value, .. } => Some(!value),
        Entity::NumberConstant { value, .. } => match value {
            NumberValue::Int(x) => Some(x == 0),
            NumberValue::Uint(x) => Some(x == 0),
            NumberValue::Integer(x) => Some(x == 0),
            NumberValue::NaN => Some(true),
            NumberValue::Real => None,
        },
        Entity::StringConstant { value, .. } => Some(value@.len() == 0),
        Entity::UndefinedConstant { .. } => Some(true),
        Entity::NullConstant { .. } => Some(true),
        _ => None,
    }
}

/// Whether `res` is the result of `op v`, where `v` is what the operand
/// verified to and `literal` says whether the operand is a numeric literal.
pub open spec fn spec_unary_result(op: Operator, v: Entity, literal: bool, res: Option<Entity>) -> bool {
    let vs = v.spec_static_type();
    if op == Operator::Await {
        match spec_promise_result_type(spec_escape_of_non_nullable(vs)) {
            Some(t) => res == Some(Entity::Value { ty: t }),
            None => res is None,
        }
    } else if is_update_operator(op) {
        res == Some(Entity::Value { ty: vs })
    } else if op == Operator::NonNull {
        if spec_includes_undefined(vs) || spec_includes_null(vs) {
            res == Some(Entity::Value { ty: Ty::NonNullable(Box::new(vs)) })
        } else {
            res == Some(Entity::Value { ty: vs })
        }
    } else if op == Operator::Delete {
        res == Some(Entity::Value { ty: Ty::Boolean })
    } else if op == Operator::Void {
        res == Some(Entity::UndefinedConstant { ty: Ty::Any })
    } else if op == Operator::Typeof {
        res == Some(Entity::Value { ty: Ty::String })
    } else if op == Operator::Yield {
        res is None
    } else if is_numeric_unary_operator(op) {
        if !numeric_unary_operand(vs) {
            res is None
        } else if let Entity::NumberConstant { value, .. } = v {
            if op == Operator::Positive || (op == Operator::Negative && literal) {
                res == Some(v)
            } else if op == Operator::Negative {
                res == Some(Entity::NumberConstant { value: spec_negate(value), ty: vs })
            } else {
                res == Some(Entity::NumberConstant { value: spec_bitwise_not(value), ty: vs })
            }
        } else {
            res == Some(Entity::Value { ty: vs })
        }
    } else {
        match spec_logical_not(v) {
            Some(b) => res == Some(Entity::BooleanConstant { value: b, ty: Ty::Boolean }),
            None => res == Some(Entity::Value { ty: Ty::Boolean }),
        }
    }
}

/// Whether `op v` reports an error at the unary expression.
pub open spec fn spec_unary_error(op: Operator, v: Entity) -> bool {
    ||| op == Operator::Yield
    ||| op == Operator::Await && spec_promise_result_type(spec_escape_of_non_nullable(v.spec_static_type())) is None
}

/// Whether `op v` reports an error at the operand: an update of a
/// non-numeric or write-only operand, or `+`, `-` or `~` on a non-numeric one.
pub open spec fn spec_unary_operand_error(op: Operator, v: Entity) -> bool {
    ||| is_update_operator(op) && (!is_numeric(v.spec_static_type()) || v.spec_write_only())
    ||| is_numeric_unary_operator(op) && !numeric_unary_operand(v.spec_static_type())
}

/// Whether `op v` warns at the operand that it is already non-nullable.
pub open spec fn spec_unary_operand_warning(op: Operator, v: Entity) -> bool {
    op == Operator::NonNull && !(spec_includes_undefined(v.spec_static_type()) || spec_includes_null(v.spec_static_type()))
}

/// The mode an operand of `op` is verified in.
pub open spec fn spec_unary_mode(op: Operator) -> VerifyMode {
    if op == Operator::Delete {
        VerifyMode::Delete
    } else if is_update_operator(op) {
        VerifyMode::Write
    } else {
        VerifyMode::Read
    }
}

fn logical_not(v: &Entity) -> (r: Option<bool>)
    ensures
        r == spec_logical_not(*v),
{
    match v {
        Entity::BooleanConstant { value, .. } => Some(!*value),
        Entity::NumberConstant { value, .. } => match value {
            NumberValue::Int(x) => Some(*x == 0),
            NumberValue::Uint(x) => Some(*x == 0),
            NumberValue::Integer(x) => Some(*x == 0),
            NumberValue::NaN => Some(true),
            NumberValue::Real => None,
        },
        Entity::StringConstant { value, .. } => Some(value.as_str().unicode_len() == 0),
        Entity::UndefinedConstant { .. } => Some(true),
        Entity::NullConstant { .. } => Some(true),
        _ => None,
    }
}

/// The result of `op v` once the operand verified.
fn unary_value(op: Operator, v: &Entity, literal: bool) -> (res: Option<Entity>)
    requires
        is_unary_operator(op),
    ensures
        spec_unary_result(op, *v, literal, res),
{
    let vs = v.static_type();
    match op {
        Operator::Await => match promise_result_type(&escape_of_non_nullable(&vs)) {
            Some(t) => Some(Entity::Value { ty: t }),
            None => None,
        },
        Operator::PreIncrement | Operator::PreDecrement | Operator::PostIncrement | Operator::PostDecrement =>
            Some(Entity::Value { ty: vs }),
        Operator::NonNull => {
            if includes_undefined(&vs) || includes_null(&vs) {
                Some(Entity::Value { ty: Ty::NonNullable(Box::new(vs)) })
            } else {
                Some(Entity::Value { ty: vs })
            }
        },
        Operator::Delete => Some(Entity::Value { ty: Ty::Boolean }),
        Operator::Void => Some(Entity::UndefinedConstant { ty: Ty::Any }),
        Operator::Typeof => Some(Entity::Value { ty: Ty::String }),
        Operator::Yield => None,
        Operator::Positive | Operator::Negative | Operator::BitwiseNot => {
            let e = escape_of_non_nullable(&vs);
            if !(e.is(Ty::Any) || e.is(Ty::Object) || numeric(&vs)) {
                return None;
            }
            if let Entity::NumberConstant { value, .. } = v {
                if op == Operator::Positive || (op == Operator::Negative && literal) {
                    return Some(v.clone());
                }
                let nv = if op == Operator::Negative {
                    match value {
                        NumberValue::Int(x) => NumberValue::Int(0i32.wrapping_sub(*x)),
                        NumberValue::Integer(x) => exact_integer_of(0i64.checked_sub(*x)),
                        NumberValue::NaN => NumberValue::NaN,
                        _ => NumberValue::Real,
                    }
                } else {
                    match value {
                        NumberValue::Int(x) => NumberValue::Int(!*x),
                        NumberValue::Uint(x) => NumberValue::Uint(!*x),
                        _ => NumberValue::Real,
                    }
                };
                return Some(Entity::NumberConstant { value: nv, ty: vs });
            }
            Some(Entity::Value { ty: vs })
        },
        _ => match logical_not(v) {
            Some(b) => Some(Entity::BooleanConstant { value: b, ty: Ty::Boolean }),
            None => Some(Entity::Value { ty: Ty::Boolean }),
        },
    }
}

/// What a unary operation gives, from what its operand verified to.
pub open spec fn unary_exp_done(old: Subverifier, new: Subverifier, exp: Expression, res: Option<Entity>) -> bool {
    ({
        let op = exp.kind->Unary_operator;
        let operand = exp.kind->Unary_expression;
        match new.value_of(operand.id) {
            Some(v) => {
                &&& spec_unary_result(op, v, operand.kind is NumericLiteral, res)
                &&& spec_unary_error(op, v) ==> new.spec_has_error_at(exp.location)
                &&& spec_unary_operand_error(op, v) ==> new.spec_has_error_at(operand.location)
                &&& spec_unary_operand_warning(op, v) ==> warning_at(new.host.diagnostics@, operand.location.first_offset)
            },
            None => res is None,
        }
    })
}

impl ExpSubverifier {
    /// Verifies a unary operation. The operand of `delete` is verified for
    /// deletion, that of an increment or decrement for writing, and that of
    /// `-` as preceded by a negative sign.
    pub fn verify_unary_exp(verifier: &mut Subverifier, exp: &Expression) -> (r: Result<Option<Entity>, DeferError>)
        requires
            old(verifier).scope is Some,
            exp.kind is Unary,
            is_unary_operator(exp.kind->Unary_operator),
        ensures
            final(verifier).step(*old(verifier)),
            r matches Ok(res) ==> unary_exp_done(*old(verifier), *final(verifier), *exp, res),
            exp_settles(*old(verifier), *exp.kind->Unary_expression) ==> r is Ok,
        decreases exp, 1nat,
    {
        let (op, operand) = match &exp.kind {
            ExpressionKind::Unary { operator, expression } => (*operator, expression),
            _ => { proof { assert(false); } return Ok(None); },
        };
        let ghost start = *verifier;
        let mode = if op == Operator::Delete {
            VerifyMode::Delete
        } else if matches!(op, Operator::PreIncrement | Operator::PreDecrement | Operator::PostIncrement | Operator::PostDecrement) {
            VerifyMode::Write
        } else {
            VerifyMode::Read
        };
        let context = VerifierExpressionContext {
            context_type: None,
            followed_by_type_arguments: false,
            followed_by_call: false,
            mode: if op == Operator::Await { VerifyMode::Read } else { mode },
            preceded_by_negative: op == Operator::Negative,
        };
        let v = match verifier.verify_expression(operand, &context)? {
            None => return Ok(None),
            Some(v) => v,
        };
        let ghost mid = *verifier;
        let vs = v.static_type();
        match op {
            Operator::Await => {
                if promise_result_type(&escape_of_non_nullable(&vs)).is_none() {
                    verifier.add_verify_error(&exp.location, DiagnosticKind::AwaitOperandMustBeAPromise);
                }
            },
            Operator::Yield => {
                verifier.add_verify_error(&exp.location, DiagnosticKind::YieldIsNotSupported);
            },
            Operator::PreIncrement | Operator::PreDecrement | Operator::PostIncrement | Operator::PostDecrement => {
                if !numeric(&vs) {
                    verifier.add_verify_error(&operand.location, DiagnosticKind::OperandMustBeNumber);
                } else if v.write_only() {
                    verifier.add_verify_error(&operand.location, DiagnosticKind::EntityIsWriteOnly);
                }
            },
            Operator::NonNull => {
                if !(includes_undefined(&vs) || includes_null(&vs)) {
                    verifier.add_warning(&operand.location, DiagnosticKind::ReferenceIsAlreadyNonNullable);
                }
            },
            Operator::Positive | Operator::Negative | Operator::BitwiseNot => {
                let e = escape_of_non_nullable(&vs);
                if !(e.is(Ty::Any) || e.is(Ty::Object) || numeric(&vs)) {
                    verifier.add_verify_error(&operand.location, DiagnosticKind::OperandMustBeNumber);
                }
            },
            _ => {},
        }
        proof {
            lemma_results_stable(mid, *verifier);
            lemma_step_trans(start, mid, *verifier);
        }
        let literal = matches!(operand.kind, ExpressionKind::NumericLiteral { .. });
        Ok(unary_value(op, &v, literal))
    }
}

/// Whether `op` is an operator of binary expressions.
pub fn binary_operator(op: Operator) -> (r: bool)
    ensures
        r == is_binary_operator(op),
{
    !matches!(op, Operator::Await | Operator::Yield | Operator::Delete | Operator::Void | Operator::Typeof
        | Operator::PreIncrement | Operator::PreDecrement | Operator::PostIncrement | Operator::PostDecrement
        | Operator::NonNull | Operator::Positive | Operator::Negative | Operator::BitwiseNot | Operator::LogicalNot)
}

/// Whether `op` is an operator of unary expressions.
pub fn unary_operator(op: Operator) -> (r: bool)
    ensures
        r == is_unary_operator(op),
{
    matches!(op, Operator::Await | Operator::Yield | Operator::Delete | Operator::Void | Operator::Typeof
        | Operator::PreIncrement | Operator::PreDecrement | Operator::PostIncrement | Operator::PostDecrement
        | Operator::NonNull | Operator::Positive | Operator::Negative | Operator::BitwiseNot | Operator::LogicalNot)
}

/// The operators of compound assignments `a op= b`.
pub open spec fn is_compound_assignment_operator(op: Operator) -> bool {
    op == Operator::Add || is_arith_operator(op) || op == Operator::LogicalAnd || op == Operator::LogicalXor
        || op == Operator::LogicalOr || op == Operator::NullCoalescing
}

/// Whether `op` is an operator of compound assignments.
pub fn compound_assignment_operator(op: Operator) -> (r: bool)
    ensures
        r == is_compound_assignment_operator(op),
{
    matches!(op, Operator::Add | Operator::Subtract | Operator::Multiply | Operator::Divide | Operator::Remainder
        | Operator::Power | Operator::BitwiseAnd | Operator::BitwiseXor | Operator::BitwiseOr | Operator::ShiftLeft
        | Operator::ShiftRight | Operator::ShiftRightUnsigned | Operator::LogicalAnd | Operator::LogicalXor
        | Operator::LogicalOr | Operator::NullCoalescing)
}

/// Whether the left side of an assignment is a destructuring pattern: an
/// array or object literal, possibly under `!`.
pub open spec fn spec_destructuring_lhs(e: Expression) -> bool
    decreases e,
{
    match e.kind {
        ExpressionKind::Unary { operator, expression } => operator == Operator::NonNull && spec_destructuring_lhs(*expression),
        ExpressionKind::ArrayLiteral { .. } | ExpressionKind::ObjectInitializer { .. } => true,
        _ => false,
    }
}

/// What an assignment gives, from what its operands verified to.
pub open spec fn assignment_exp_done(old: Subverifier, new: Subverifier, exp: Expression, res: Option<Entity>) -> bool {
    ({
        let left = exp.kind->Assignment_left;
        let right = exp.kind->Assignment_right;
        if spec_destructuring_lhs(*left) && exp.kind->Assignment_compound is None {
            match new.value_of(right.id) {
                Some(rv) => res == Some(Entity::Value { ty: rv.spec_static_type() })
                    && new.host.node_mapping@.contains_key(left.id),
                None => res is None,
            }
        } else {
            match (new.value_of(left.id), new.result_of(right.id)) {
                (Some(l), Some(rv)) => {
                    &&& res == Some(Entity::Value { ty: rv.spec_static_type() })
                    &&& (exp.kind->Assignment_compound matches Some(op) && is_arith_operator(op)
                        && !arith_operand(l.spec_static_type())) ==> new.spec_has_error_at(exp.location)
                },
                _ => res is None,
            }
        }
    })
}

impl ExpSubverifier {
    fn is_destructuring_left_hand_side(exp: &Expression) -> (r: bool)
        ensures
            r == spec_destructuring_lhs(*exp),
        decreases exp,
    {
        match &exp.kind {
            ExpressionKind::Unary { operator, expression } => *operator == Operator::NonNull && Self::is_destructuring_left_hand_side(expression),
            ExpressionKind::ArrayLiteral { .. } | ExpressionKind::ObjectInitializer { .. } => true,
            _ => false,
        }
    }

    /// Verifies an assignment. A destructuring left side receives the right
    /// side's value; otherwise the left side is verified for writing and the
    /// right side is coerced to its type, and a compound arithmetic
    /// assignment to a non-numeric left side is reported.
    pub fn verify_assignment_exp(verifier: &mut Subverifier, exp: &Expression) -> (r: Result<Option<Entity>, DeferError>)
        requires
            old(verifier).scope is Some,
            exp.kind is Assignment,
            exp.kind->Assignment_compound matches Some(op) ==> is_compound_assignment_operator(op),
        ensures
            final(verifier).step(*old(verifier)),
            r matches Ok(res) ==> assignment_exp_done(*old(verifier), *final(verifier), *exp, res),
            old(verifier).is_verified(exp.kind->Assignment_right.id) && (
                if spec_destructuring_lhs(*exp.kind->Assignment_left) && exp.kind->Assignment_compound is None {
                    pattern_settled(*old(verifier), *exp.kind->Assignment_left)
                } else {
                    old(verifier).is_verified(exp.kind->Assignment_left.id)
                }) ==> r is Ok,
        decreases exp, 1nat,
    {
        let (compound, left, right) = match &exp.kind {
            ExpressionKind::Assignment { compound, left, right } => (*compound, left, right),
            _ => { proof { assert(false); } return Ok(None); },
        };
        proof { assert(decreases_to!(*exp => exp.kind)); }
        let ghost start = *verifier;
        if compound.is_none() && Self::is_destructuring_left_hand_side(left) {
            let rv = verifier.verify_expression(right, &default_context())?;
            let ghost s1 = *verifier;
            let init = match &rv {
                Some(rv) => rv.clone(),
                None => Entity::Invalidation,
            };
            let v = AssignmentDestructuringSubverifier::verify_pattern(verifier, left, &init);
            proof {
                lemma_step_trans(start, s1, *verifier);
                lemma_results_stable(s1, *verifier);
            }
            v?;
            return match rv {
                None => Ok(None),
                Some(rv) => Ok(Some(Entity::Value { ty: rv.static_type() })),
            };
        }
        let context = VerifierExpressionContext {
            context_type: None,
            followed_by_type_arguments: false,
            followed_by_call: false,
            mode: VerifyMode::Write,
            preceded_by_negative: false,
        };
        let l = verifier.verify_expression(left, &context)?;
        let ghost s1 = *verifier;
        let l = match l {
            None => {
                let v = verifier.verify_expression(right, &default_context());
                proof { lemma_step_trans(start, s1, *verifier); lemma_results_stable(s1, *verifier); }
                v?;
                return Ok(None);
            },
            Some(l) => l,
        };
        let left_st = l.static_type();
        let rv = verifier.imp_coerce_exp(right, &left_st);
        proof { lemma_step_trans(start, s1, *verifier); lemma_results_stable(s1, *verifier); }
        let rv = rv?;
        let ghost s2 = *verifier;
        if let Some(op) = compound {
            if matches!(op, Operator::Subtract | Operator::Multiply | Operator::Divide | Operator::Remainder | Operator::Power
                | Operator::BitwiseAnd | Operator::BitwiseXor | Operator::BitwiseOr | Operator::ShiftLeft
                | Operator::ShiftRight | Operator::ShiftRightUnsigned) && !arith_operand_exec(&left_st) {
                verifier.add_verify_error(&exp.location, DiagnosticKind::UnrelatedMathOperation);
            }
        }
        proof { lemma_step_trans(start, s2, *verifier); lemma_results_stable(s2, *verifier); }
        match rv {
            None => Ok(None),
            Some(rv) => Ok(Some(Entity::Value { ty: rv.static_type() })),
        }
    }
}


/// Folding `+`, `-` or `*` on two `int` constants computes the operation on
/// the integers, left operand first, wrapped into the range of `int`: the
/// folded value differs from the exact sum, difference or product by a
/// multiple of 2^32.
pub proof fn law_int_arithmetic_folds(op: Operator, x: i32, y: i32, res: Option<Entity>)
    requires
        op == Operator::Add || op == Operator::Subtract || op == Operator::Multiply,
        spec_binary_result(op, Entity::NumberConstant { value: NumberValue::Int(x), ty: Ty::Int },
            Entity::NumberConstant { value: NumberValue::Int(y), ty: Ty::Int }, res),
    ensures
        res matches Some(Entity::NumberConstant { value: NumberValue::Int(z), ty: Ty::Int }) && {
            &&& op == Operator::Add ==> (z - (x + y)) % 0x1_0000_0000int == 0
            &&& op == Operator::Subtract ==> (z - (x - y)) % 0x1_0000_0000int == 0
            &&& op == Operator::Multiply ==> (z - x * y) % 0x1_0000_0000int == 0
        },
{
    let p = x * y;
    let c = vstd::wrapping::i32_specs::signed_crop(p);
    assert((c - p) % 0x1_0000_0000int == 0) by {
        vstd::arithmetic::div_mod::lemma_fundamental_div_mod(p, 0x1_0000_0000int);
        vstd::arithmetic::div_mod::lemma_mod_multiples_vanish(-(p / 0x1_0000_0000int), 0, 0x1_0000_0000int);
        vstd::arithmetic::div_mod::lemma_mod_multiples_vanish(-(p / 0x1_0000_0000int) - 1, 0, 0x1_0000_0000int);
    }
}

/// Folding `+`, `-` or `*` on two `uint` constants computes the operation on
/// the integers, left operand first, modulo 2^32.
pub proof fn law_uint_arithmetic_folds(op: Operator, x: u32, y: u32, res: Option<Entity>)
    requires
        op == Operator::Add || op == Operator::Subtract || op == Operator::Multiply,
        spec_binary_result(op, Entity::NumberConstant { value: NumberValue::Uint(x), ty: Ty::Uint },
            Entity::NumberConstant { value: NumberValue::Uint(y), ty: Ty::Uint }, res),
    ensures
        res matches Some(Entity::NumberConstant { value: NumberValue::Uint(z), ty: Ty::Uint }) && {
            &&& op == Operator::Add ==> (z - (x + y)) % 0x1_0000_0000int == 0
            &&& op == Operator::Subtract ==> (z - (x - y)) % 0x1_0000_0000int == 0
            &&& op == Operator::Multiply ==> (z - x * y) % 0x1_0000_0000int == 0
        },
{
    let p: nat = x as nat * y as nat;
    assert(((p % 0x1_0000_0000nat) - p) % 0x1_0000_0000int == 0) by {
        vstd::arithmetic::div_mod::lemma_fundamental_div_mod(p as int, 0x1_0000_0000int);
        vstd::arithmetic::div_mod::lemma_mod_multiples_vanish(-(p as int / 0x1_0000_0000int), 0, 0x1_0000_0000int);
    }
}

/// Dividing a non-negative `int` constant by a positive one folds to the
/// quotient and the remainder of the integers, left operand first.
pub proof fn law_int_division_folds(op: Operator, x: i32, y: i32, res: Option<Entity>)
    requires
        op == Operator::Divide || op == Operator::Remainder,
        x >= 0,
        y > 0,
        spec_binary_result(op, Entity::NumberConstant { value: NumberValue::Int(x), ty: Ty::Int },
            Entity::NumberConstant { value: NumberValue::Int(y), ty: Ty::Int }, res),
    ensures
        res matches Some(Entity::NumberConstant { value: NumberValue::Int(z), ty: Ty::Int }) && {
            &&& op == Operator::Divide ==> z * y <= x < z * y + y
            &&& op == Operator::Remainder ==> 0 <= z < y && (x - z) % (y as int) == 0
        },
{
    let q = x as int / y as int;
    let m = x as int % y as int;
    assert(q * y <= x < q * y + y && 0 <= m < y && m == x - q * y) by (nonlinear_arith)
        requires x >= 0, y > 0, q == x as int / y as int, m == x as int % y as int;
    assert(0 <= q <= x) by (nonlinear_arith)
        requires x >= 0, y > 0, q == x as int / y as int;
    assert((x - m) % (y as int) == 0) by {
        vstd::arithmetic::div_mod::lemma_mod_multiples_basic(q, y as int);
    }
}

/// Folding `+`, `-` or `*` on two `Number` constants that hold integers
/// gives the exact integer result, left operand first, while it stays
/// within the integers a `Number` holds exactly.
pub proof fn law_number_arithmetic_folds(op: Operator, x: i64, y: i64, res: Option<Entity>)
    requires
        op == Operator::Add || op == Operator::Subtract || op == Operator::Multiply,
        spec_binary_result(op, Entity::NumberConstant { value: NumberValue::Integer(x), ty: Ty::Number },
            Entity::NumberConstant { value: NumberValue::Integer(y), ty: Ty::Number }, res),
    ensures
        res matches Some(Entity::NumberConstant { value, ty: Ty::Number }) && {
            &&& op == Operator::Add && -MAX_EXACT_INTEGER <= x + y <= MAX_EXACT_INTEGER
                ==> value == NumberValue::Integer((x + y) as i64)
            &&& op == Operator::Subtract && -MAX_EXACT_INTEGER <= x - y <= MAX_EXACT_INTEGER
                ==> value == NumberValue::Integer((x - y) as i64)
            &&& op == Operator::Multiply && -MAX_EXACT_INTEGER <= x * y <= MAX_EXACT_INTEGER
                ==> value == NumberValue::Integer((x * y) as i64)
        },
{
}

/// Comparing two numeric constants that hold integers folds to the
/// comparison of the integers, left operand first.
pub proof fn law_integer_comparison_folds(op: Operator, a: NumberValue, b: NumberValue, lt: Ty, rt: Ty, res: Option<Entity>)
    requires
        is_relational_operator(op) || is_equality_operator(op),
        a is Int || a is Uint || a is Integer,
        b is Int || b is Uint || b is Integer,
        spec_binary_result(op, Entity::NumberConstant { value: a, ty: lt }, Entity::NumberConstant { value: b, ty: rt }, res),
    ensures
        res matches Some(Entity::BooleanConstant { value, ty: Ty::Boolean }) && {
            let x = integer_of(a).unwrap();
            let y = integer_of(b).unwrap();
            &&& op == Operator::Lt ==> value == (x < y)
            &&& op == Operator::Gt ==> value == (x > y)
            &&& op == Operator::Le ==> value == (x <= y)
            &&& op == Operator::Ge ==> value == (x >= y)
            &&& (op == Operator::Equals || op == Operator::StrictEquals) ==> value == (x == y)
            &&& (op == Operator::NotEquals || op == Operator::StrictNotEquals) ==> value == (x != y)
        },
{
}

/// `!` on a constant folds to whether the constant is falsy: a string when
/// it is empty, a number when it is zero or NaN, `null` and `undefined`
/// always, and a Boolean when it is false.
pub proof fn law_logical_not_folds(v: Entity, literal: bool, res: Option<Entity>)
    requires
        v is StringConstant || v is BooleanConstant || v is NullConstant || v is UndefinedConstant
            || (v matches Entity::NumberConstant { value, .. } && value != NumberValue::Real),
        spec_unary_result(Operator::LogicalNot, v, literal, res),
    ensures
        res matches Some(Entity::BooleanConstant { value: b, ty: Ty::Boolean }) && {
            &&& v matches Entity::StringConstant { value, .. } ==> (b <==> value@.len() == 0)
            &&& v matches Entity::BooleanConstant { value, .. } ==> b == !value
            &&& v matches Entity::NumberConstant { value, .. } ==> (b <==> (integer_of(value) == Some(0int) || value == NumberValue::NaN))
            &&& (v is NullConstant || v is UndefinedConstant) ==> b
        },
{
}

/// Dividing `uint` constants folds to the quotient and the remainder of the
/// integers, left operand first.
pub proof fn law_uint_division_folds(op: Operator, x: u32, y: u32, res: Option<Entity>)
    requires
        op == Operator::Divide || op == Operator::Remainder,
        y > 0,
        spec_binary_result(op, Entity::NumberConstant { value: NumberValue::Uint(x), ty: Ty::Uint },
            Entity::NumberConstant { value: NumberValue::Uint(y), ty: Ty::Uint }, res),
    ensures
        res matches Some(Entity::NumberConstant { value: NumberValue::Uint(z), ty: Ty::Uint }) && {
            &&& op == Operator::Divide ==> z * y <= x < z * y + y
            &&& op == Operator::Remainder ==> 0 <= z < y && (x - z) % (y as int) == 0
        },
{
    let q = x as int / y as int;
    let m = x as int % y as int;
    assert(q * y <= x < q * y + y && 0 <= m < y && m == x - q * y) by (nonlinear_arith)
        requires y > 0, q == x as int / y as int, m == x as int % y as int;
    assert((x - m) % (y as int) == 0) by {
        vstd::arithmetic::div_mod::lemma_mod_multiples_basic(q, y as int);
    }
}

/// Negating an `int` constant folds to its negation wrapped into the range
/// of `int`, and negating a `Number` constant that holds an integer to the
/// opposite integer; `+` keeps a numeric constant as it is.
pub proof fn law_negation_folds(op: Operator, v: Entity, res: Option<Entity>)
    requires
        op == Operator::Negative || op == Operator::Positive,
        v matches Entity::NumberConstant { value, ty } && ((value is Int && ty == Ty::Int) || (value is Integer && ty == Ty::Number)),
        spec_unary_result(op, v, false, res),
    ensures
        op == Operator::Positive ==> res == Some(v),
        op == Operator::Negative ==> match v {
            Entity::NumberConstant { value: NumberValue::Int(x), .. } =>
                res matches Some(Entity::NumberConstant { value: NumberValue::Int(z), ty: Ty::Int }) && (z + x) % 0x1_0000_0000int == 0,
            Entity::NumberConstant { value: NumberValue::Integer(x), .. } => -MAX_EXACT_INTEGER <= x <= MAX_EXACT_INTEGER
                ==> res == Some(Entity::NumberConstant { value: NumberValue::Integer((-x) as i64), ty: Ty::Number }),
            _ => true,
        },
{
}

/// Adding two string constants folds to the left string followed by the
/// right one.
pub proof fn law_string_concatenation_folds(a: String, b: String, lt: Ty, rt: Ty, res: Option<Entity>)
    requires
        spec_binary_result(Operator::Add, Entity::StringConstant { value: a, ty: lt }, Entity::StringConstant { value: b, ty: rt }, res),
    ensures
        res matches Some(Entity::StringConstant { value, .. }) && {
            &&& value@.len() == a@.len() + b@.len()
            &&& forall|k: int| 0 <= k < a@.len() ==> value@[k] == a@[k]
            &&& forall|k: int| 0 <= k < b@.len() ==> value@[a@.len() + k] == b@[k]
        },
{
}

/// `&&` and `||` on two Boolean constants fold to the conjunction and the
/// disjunction of their values.
pub proof fn law_boolean_operators_fold(op: Operator, x: bool, y: bool, lt: Ty, rt: Ty, res: Option<Entity>)
    requires
        op == Operator::LogicalAnd || op == Operator::LogicalOr,
        spec_binary_result(op, Entity::BooleanConstant { value: x, ty: lt }, Entity::BooleanConstant { value: y, ty: rt }, res),
    ensures
        res matches Some(Entity::BooleanConstant { value, ty: Ty::Boolean }) && {
            &&& op == Operator::LogicalAnd ==> (value <==> x && y)
            &&& op == Operator::LogicalOr ==> (value <==> x || y)
        },
{
}

} // verus!
