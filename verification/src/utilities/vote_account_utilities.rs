use crate::error::ElectionError;
use crate::utilities::election_account_utilities::dates_accepted;
use crate::utilities::election_account_utilities::Timestamp;
use vstd::prelude::*;

verus! {

/// Checks the dates of an election with lists of voters that is announced
/// at `now`: it starts no later than twenty minutes from now, and it ends
/// after it starts.
pub fn check_dates(now: Timestamp, start_date: Timestamp, end_date: Timestamp) -> (r: Result<
    (),
    ElectionError,
>)
    ensures
        r == if dates_accepted(now, start_date, end_date) {
            Ok::<(), ElectionError>(())
        } else {
            Err(ElectionError::MalformedInstruction)
        },
{
    if now.is_margin_before(&start_date) {
        return Err(ElectionError::MalformedInstruction);
    }
    if start_date.is_before(&end_date) {
        Ok(())
    } else {
        Err(ElectionError::MalformedInstruction)
    }
}

} // verus!
