//! The persistent vector of the `im` crate, which holds operations and plans.
use vstd::prelude::*;
use im::Vector;
use crate::errors::{AppError, AppErrorModel};
use crate::operations::{FSOperation, OpModel};

verus! {

#[verifier::external_type_specification]
#[verifier::external_body]
#[verifier::reject_recursive_types(A)]
pub struct ExVector<A>(im::Vector<A>);

/// The operations held by a vector of operations, front to back.
pub uninterp spec fn operation_items(v: Vector<FSOperation>) -> Seq<OpModel>;

/// The entries held by a plan, front to back.
pub uninterp spec fn plan_items(v: Vector<Result<FSOperation, AppError>>) -> Seq<
    Result<OpModel, AppErrorModel>,
>;

/// Relies on im::Vector::new: a new vector is empty.
#[verifier::external_body]
pub(crate) fn new_operations() -> (r: Vector<FSOperation>)
    ensures
        operation_items(r) == Seq::<OpModel>::empty(),
{
    Vector::new()
}

/// Relies on im::Vector::push_back: the value is added at the back, the
/// others stay in place.
#[verifier::external_body]
pub(crate) fn push_operation(v: &mut Vector<FSOperation>, op: FSOperation)
    ensures
        operation_items(*final(v)) == operation_items(*old(v)).push(op@),
{
    v.push_back(op)
}

/// Relies on im::Vector::pop_front: `None` on an empty vector, which stays
/// empty; else the front value, which leaves the vector.
#[verifier::external_body]
pub(crate) fn pop_operation(v: &mut Vector<FSOperation>) -> (r: Option<FSOperation>)
    ensures
        operation_items(*old(v)).len() == 0 ==> r is None && operation_items(*final(v))
            == operation_items(*old(v)),
        operation_items(*old(v)).len() > 0 ==> r is Some && r->Some_0@ == operation_items(
            *old(v),
        )[0] && operation_items(*final(v)) == operation_items(*old(v)).drop_first(),
{
    v.pop_front()
}

/// Relies on im::Vector::push_back: the entry is added at the back, the
/// others stay in place.
#[verifier::external_body]
pub(crate) fn push_entry(v: &mut Vector<Result<FSOperation, AppError>>, e: Result<FSOperation, AppError>)
    ensures
        plan_items(*final(v)) == plan_items(*old(v)).push(entry_view(e)),
{
    v.push_back(e)
}

/// Relies on im::Vector::len: the number of entries held.
#[verifier::external_body]
pub(crate) fn plan_len(v: &Vector<Result<FSOperation, AppError>>) -> (r: usize)
    ensures
        r == plan_items(*v).len(),
{
    v.len()
}

/// Relies on im::Vector's indexing: the entry at position `i`.
#[verifier::external_body]
pub(crate) fn entry_at(v: &Vector<Result<FSOperation, AppError>>, i: usize) -> (r: &Result<FSOperation, AppError>)
    requires
        i < plan_items(*v).len(),
    ensures
        entry_view(*r) == plan_items(*v)[i as int],
{
    &v[i]
}

/// The model of one plan entry.
pub open spec fn entry_view(e: Result<FSOperation, AppError>) -> Result<OpModel, AppErrorModel> {
    match e {
        Ok(op) => Ok(op@),
        Err(err) => Err(err@),
    }
}

} // verus!
