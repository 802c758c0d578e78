//! The two call directions: host functions that the guest calls, and guest
//! functions that the host calls.
//!
//! Both meet the engine at a flat list of boundary values.
use vstd::prelude::*;

use crate::error::{Malformed, MarshalError};
use crate::marshal::{MarshaledTyList, PrimValue, WasmPrimitiveList};

verus! {

/// The boundary values that the list `v` flattens to.
pub open spec fn spec_flatten<L: MarshaledTyList>(v: L) -> Seq<PrimValue> {
    L::Prims::spec_values(L::spec_into_prims(v))
}

/// The list that the boundary values `v` hold, or why they hold none.
pub open spec fn spec_unflatten<L: MarshaledTyList>(v: Seq<PrimValue>) -> Result<
    L,
    MarshalError,
> {
    match L::Prims::spec_from_values(v) {
        None => Err(MarshalError::MalformedValue(Malformed::Signature)),
        Some(p) => match L::spec_from_prims(p) {
            Some(l) => Ok(l),
            None => match L::spec_first_invalid(p) {
                Some(i) => Err(MarshalError::MalformedValue(Malformed::Argument(i as usize))),
                None => Err(MarshalError::MalformedValue(Malformed::Signature)),
            },
        },
    }
}

/// Flattens a marshaled list into boundary values, in order.
pub fn flatten<L: MarshaledTyList>(v: L) -> (r: Vec<PrimValue>)
    ensures
        r@ == spec_flatten(v),
{
    let mut out: Vec<PrimValue> = Vec::new();
    L::Prims::append_values(L::into_prims(v), &mut out);
    assert(out@ =~= spec_flatten(v));
    out
}

/// Unflattens boundary values into a marshaled list; on failure reports the
/// position of the first component that does not decode.
pub fn unflatten<L: MarshaledTyList>(v: &[PrimValue]) -> (r: Result<L, MarshalError>)
    requires
        L::spec_arity() <= usize::MAX,
    ensures
        r == spec_unflatten::<L>(v@),
{
    match L::Prims::from_values(v) {
        None => Err(MarshalError::MalformedValue(Malformed::Signature)),
        Some(p) => {
            proof {
                L::lemma_first_invalid(p);
            }
            match L::try_from_prims(p) {
                Ok(l) => Ok(l),
                Err(i) => Err(MarshalError::MalformedValue(Malformed::Argument(i))),
            }
        },
    }
}

/// Flattening then unflattening gives the list back, for every arity.
pub proof fn lemma_flatten_unflatten<L: MarshaledTyList>(v: L)
    ensures
        spec_unflatten::<L>(spec_flatten(v)) == Ok::<L, MarshalError>(v),
{
    L::Prims::lemma_values(L::spec_into_prims(v));
    L::lemma_round_trip(v);
}

/// Runs a host function on the arguments that a guest call passed: decodes them,
/// calls `f` only where every argument decodes, and flattens what it returns.
pub fn call_host<A: MarshaledTyList, R: MarshaledTyList, F: FnOnce(A) -> Result<R, MarshalError>>(
    f: F,
    args: &[PrimValue],
) -> (r: Result<Vec<PrimValue>, MarshalError>)
    requires
        A::spec_arity() <= usize::MAX,
        forall|a: A| f.requires((a,)),
    ensures
        match spec_unflatten::<A>(args@) {
            Err(e) => r == Err::<Vec<PrimValue>, MarshalError>(e),
            Ok(a) => exists|res: Result<R, MarshalError>|
                {
                    &&& #[trigger] f.ensures((a,), res)
                    &&& match res {
                        Ok(v) => r is Ok && r->Ok_0@ == spec_flatten(v),
                        Err(e) => r == Err::<Vec<PrimValue>, MarshalError>(e),
                    }
                },
        },
{
    let a = unflatten::<A>(args)?;
    let res = f(a);
    match res {
        Ok(v) => Ok(flatten(v)),
        Err(e) => Err(e),
    }
}

/// What a call into the guest gives, from the outcome of the engine's call:
/// a failed call stays a failure, and results that do not decode are a
/// malformed value, told apart from the call's own failure.
pub fn finish_guest_call<R: MarshaledTyList>(outcome: Result<Vec<PrimValue>, MarshalError>) -> (r:
    Result<R, MarshalError>)
    requires
        R::spec_arity() <= usize::MAX,
    ensures
        match outcome {
            Err(e) => r == Err::<R, MarshalError>(e),
            Ok(v) => match spec_unflatten::<R>(v@) {
                Ok(l) => r == Ok::<R, MarshalError>(l),
                Err(_) => r == Err::<R, MarshalError>(
                    MarshalError::MalformedValue(Malformed::Results),
                ),
            },
        },
{
    let values = outcome?;
    match unflatten::<R>(values.as_slice()) {
        Ok(l) => Ok(l),
        Err(_) => Err(MarshalError::MalformedValue(Malformed::Results)),
    }
}

} // verus!
