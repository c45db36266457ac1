pub mod candidate_list_state;
pub mod candidate_state;
pub mod election_account_state;
pub mod result_state;
pub mod vote_account_state;
pub mod voter_account_state;
