use vstd::prelude::*;

verus! {

/// The request that links a new item: the aggregator's id for it.
pub struct CreateItemRequest {
    pub item_id: String,
}

/// The query of the monthly expenses report: the year, where given.
pub struct MonthlyExpensesQuery {
    pub year: Option<i32>,
}

} // verus!
