//! Items shared by the contracts' queries.
use vstd::prelude::*;

verus! {

/// The order of a paginated query.
#[derive(Clone, Copy, Debug, PartialEq, Eq, Structural)]
pub enum OrderBy {
    Asc,
    Desc,
}

/// A query in `OrderBy::Asc` order walks keys upwards; any other downwards.
pub fn is_ascending(o: OrderBy) -> (b: bool)
    ensures
        b == (o == OrderBy::Asc),
{
    match o {
        OrderBy::Asc => true,
        OrderBy::Desc => false,
    }
}

} // verus!
