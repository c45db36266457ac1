pub mod election_account_utilities;
pub mod vote_account_utilities;
