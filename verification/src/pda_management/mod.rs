pub mod candidate_list_manager_account;
pub mod candidate_manager_account;
pub mod election_manager_account;
pub mod generate_vote_account;
pub mod result_manager_account;
pub mod voter_manager_account;
