//! Verification of call arguments against a function signature.
use vstd::prelude::*;
use crate::ast::Expression;
use crate::semantics::{Ty, FunctionParam, ParameterKind, spec_array_element_type, array_element_type};
use crate::subverifier::{Subverifier, DeferError, default_context};
use crate::exp::lemma_step_trans;

verus! {

/// Why a list of arguments does not match a signature.
#[derive(Debug)]
pub enum VerifierArgumentsError {
    Defer,
    /// Fewer arguments than the required parameters: this many are expected.
    Expected(usize),
    /// More arguments than the parameters, and no rest parameter: no more
    /// than this many are expected.
    ExpectedNoMoreThan(usize),
}

/// The number of required parameters.
pub open spec fn required_count(params: Seq<FunctionParam>) -> nat
    decreases params.len(),
{
    if params.len() == 0 {
        0
    } else {
        required_count(params.drop_last()) + if params.last().kind == ParameterKind::Required { 1nat } else { 0nat }
    }
}

/// The number of required and optional parameters.
pub open spec fn expected_count(params: Seq<FunctionParam>) -> nat
    decreases params.len(),
{
    if params.len() == 0 {
        0
    } else {
        expected_count(params.drop_last()) + if params.last().kind != ParameterKind::Rest { 1nat } else { 0nat }
    }
}

/// Whether a parameter is a rest parameter.
pub open spec fn has_rest(params: Seq<FunctionParam>) -> bool {
    exists|i: int| 0 <= i < params.len() && (#[trigger] params[i]).kind == ParameterKind::Rest
}

/// Whether every rest parameter has an `Array` type.
pub open spec fn rest_params_are_arrays(params: Seq<FunctionParam>) -> bool {
    forall|i: int| 0 <= i < params.len() && (#[trigger] params[i]).kind == ParameterKind::Rest
        ==> spec_array_element_type(params[i].static_type) is Some
}

/// How `n` arguments match `params`.
pub open spec fn spec_arguments_outcome(params: Seq<FunctionParam>, n: nat) -> Result<(), VerifierArgumentsError> {
    if n > params.len() && !has_rest(params) {
        Err(VerifierArgumentsError::ExpectedNoMoreThan(expected_count(params) as usize))
    } else if n < required_count(params) {
        Err(VerifierArgumentsError::Expected(required_count(params) as usize))
    } else {
        Ok(())
    }
}

proof fn lemma_counts_bounded(params: Seq<FunctionParam>)
    ensures
        required_count(params) <= expected_count(params) <= params.len(),
    decreases params.len(),
{
    if params.len() > 0 {
        lemma_counts_bounded(params.drop_last());
    }
}

proof fn lemma_count_step(params: Seq<FunctionParam>, j: int)
    requires
        0 <= j < params.len(),
    ensures
        required_count(params.take(j + 1)) == required_count(params.take(j))
            + if params[j].kind == ParameterKind::Required { 1nat } else { 0nat },
        expected_count(params.take(j + 1)) == expected_count(params.take(j))
            + if params[j].kind != ParameterKind::Rest { 1nat } else { 0nat },
{
    assert(params.take(j + 1).drop_last() =~= params.take(j));
    assert(params.take(j + 1).last() == params[j]);
}

/// Converts a deferred verification into an arguments error.
pub fn map_defer_error<T>(result: Result<T, DeferError>) -> (r: Result<T, VerifierArgumentsError>)
    ensures
        match result {
            Ok(v) => r == Ok::<T, VerifierArgumentsError>(v),
            Err(_) => r matches Err(VerifierArgumentsError::Defer),
        },
{
    match result {
        Ok(v) => Ok(v),
        Err(_) => Err(VerifierArgumentsError::Defer),
    }
}

/// How `n` arguments match `params`, without verifying them.
pub fn arguments_outcome(params: &Vec<FunctionParam>, n: usize) -> (r: Result<(), VerifierArgumentsError>)
    ensures
        r == spec_arguments_outcome(params@, n as nat),
{
    let mut least: usize = 0;
    let mut expect: usize = 0;
    let mut rest = false;
    let mut j: usize = 0;
    proof { lemma_counts_bounded(params@); }
    while j < params.len()
        invariant
            j <= params@.len(),
            least == required_count(params@.take(j as int)),
            expect == expected_count(params@.take(j as int)),
            rest <==> exists|k: int| 0 <= k < j && (#[trigger] params@[k]).kind == ParameterKind::Rest,
            required_count(params@) <= params@.len(),
            expected_count(params@) <= params@.len(),
        decreases params@.len() - j,
    {
        proof {
            lemma_count_step(params@, j as int);
            lemma_counts_bounded(params@.take(j + 1));
        }
        if params[j].kind == ParameterKind::Required {
            least = least + 1;
            expect = expect + 1;
        } else if params[j].kind == ParameterKind::Optional {
            expect = expect + 1;
        } else {
            rest = true;
        }
        j = j + 1;
    }
    proof {
        assert(params@.take(params@.len() as int) =~= params@);
    }
    if n > params.len() && !rest {
        Err(VerifierArgumentsError::ExpectedNoMoreThan(expect))
    } else if n < least {
        Err(VerifierArgumentsError::Expected(least))
    } else {
        Ok(())
    }
}

/// Verification of arguments.
pub struct ArgumentsSubverifier;

impl ArgumentsSubverifier {
    /// Verifies `arguments` against the parameters `params`: each argument
    /// is coerced to its parameter's type, or to the element type of the
    /// rest parameter; arguments beyond all parameters are verified plainly.
    pub fn verify(verifier: &mut Subverifier, arguments: &Vec<Expression>, params: &Vec<FunctionParam>)
        -> (r: Result<(), VerifierArgumentsError>)
        requires
            old(verifier).scope is Some,
            rest_params_are_arrays(params@),
        ensures
            final(verifier).step(*old(verifier)),
            !(r matches Err(VerifierArgumentsError::Defer)) ==> {
                &&& r == spec_arguments_outcome(params@, arguments@.len())
                &&& forall|i: int| 0 <= i < arguments@.len() ==> final(verifier).host.node_mapping@.contains_key((#[trigger] arguments@[i]).id)
            },
            (forall|i: int| 0 <= i < arguments@.len() ==> old(verifier).is_verified((#[trigger] arguments@[i]).id))
                ==> !(r matches Err(VerifierArgumentsError::Defer)) && *final(verifier) == *old(verifier),
        decreases arguments, 0nat,
    {
        let ghost start = *verifier;
        let mut rest_elem_type: Option<Ty> = None;
        let mut least: usize = 0;
        let mut expect: usize = 0;
        let mut exceeds = false;
        let mut i: usize = 0;
        proof { lemma_counts_bounded(params@); }
        while i < arguments.len()
            invariant
                i <= arguments@.len(),
                start == *old(verifier),
                verifier.step(start),
                verifier.scope is Some,
                rest_params_are_arrays(params@),
                i <= params@.len() ==> least == required_count(params@.take(i as int))
                    && expect == expected_count(params@.take(i as int)),
                i > params@.len() ==> least == required_count(params@) && expect == expected_count(params@),
                rest_elem_type is Some <==> exists|k: int| 0 <= k < i && k < params@.len() && (#[trigger] params@[k]).kind == ParameterKind::Rest,
                exceeds <==> (i > params@.len() && !has_rest(params@)),
                forall|j: int| 0 <= j < i ==> verifier.host.node_mapping@.contains_key((#[trigger] arguments@[j]).id),
                (forall|j: int| 0 <= j < arguments@.len() ==> start.is_verified((#[trigger] arguments@[j]).id)) ==> *verifier == start,
                required_count(params@) <= params@.len(),
                expected_count(params@) <= params@.len(),
            decreases arguments@.len() - i,
        {
            let ghost before = *verifier;
            proof {
                assert(decreases_to!(*arguments => arguments@));
                assert(decreases_to!(arguments@ => arguments@[i as int]));
            }
            let arg = &arguments[i];
            let v = if i < params.len() {
                let p = &params[i];
                proof {
                    lemma_count_step(params@, i as int);
                    lemma_counts_bounded(params@.take(i + 1));
                }
                match p.kind {
                    ParameterKind::Rest => {
                        let t = match array_element_type(&p.static_type) {
                            Some(t) => t,
                            None => { proof { assert(false); } Ty::Any },
                        };
                        rest_elem_type = Some(t.clone());
                        verifier.imp_coerce_exp(arg, &t)
                    },
                    _ => {
                        if p.kind == ParameterKind::Required {
                            least = least + 1;
                        }
                        expect = expect + 1;
                        verifier.imp_coerce_exp(arg, &p.static_type)
                    },
                }
            } else {
                proof {
                    assert(params@.take(params@.len() as int) =~= params@);
                }
                match &rest_elem_type {
                    Some(t) => verifier.imp_coerce_exp(arg, t),
                    None => {
                        exceeds = true;
                        verifier.verify_expression(arg, &default_context())
                    },
                }
            };
            proof {
                lemma_step_trans(start, before, *verifier);
                if i >= params@.len() && rest_elem_type is None {
                    assert(!has_rest(params@));
                }
                if i >= params@.len() && rest_elem_type is Some {
                    let k = choose|k: int| 0 <= k < i && k < params@.len() && (#[trigger] params@[k]).kind == ParameterKind::Rest;
                    assert(has_rest(params@));
                }
            }
            map_defer_error(v)?;
            i = i + 1;
        }
        let mut j: usize = i;
        if j > params.len() {
            j = params.len();
        }
        proof {
            if i > params@.len() {
                assert(params@.take(params@.len() as int) =~= params@);
            }
        }
        while j < params.len()
            invariant
                j <= params@.len(),
                least == required_count(params@.take(j as int)),
                expect == expected_count(params@.take(j as int)),
                required_count(params@) <= params@.len(),
                expected_count(params@) <= params@.len(),
            decreases params@.len() - j,
        {
            proof {
                lemma_count_step(params@, j as int);
                lemma_counts_bounded(params@.take(j + 1));
            }
            if params[j].kind == ParameterKind::Required {
                least = least + 1;
                expect = expect + 1;
            } else if params[j].kind == ParameterKind::Optional {
                expect = expect + 1;
            }
            j = j + 1;
        }
        proof {
            assert(params@.take(params@.len() as int) =~= params@);
        }
        if exceeds {
            Err(VerifierArgumentsError::ExpectedNoMoreThan(expect))
        } else if arguments.len() < least {
            Err(VerifierArgumentsError::Expected(least))
        } else {
            Ok(())
        }
    }
}

} // verus!
