use chain_democracy::error::ElectionError;
use chain_democracy::utilities::election_account_utilities::check_dates;
use chain_democracy::utilities::election_account_utilities::check_time_election;
use chain_democracy::utilities::election_account_utilities::check_time_registration;
use chain_democracy::utilities::election_account_utilities::Timestamp;

fn at(seconds: i64) -> Timestamp {
    Timestamp { seconds, nanos: 0 }
}

#[test]
fn election_window_includes_start_and_excludes_end() {
    assert_eq!(check_time_election(at(100), at(100), at(200)), Ok(()));
    assert_eq!(check_time_election(at(150), at(100), at(200)), Ok(()));
    assert_eq!(check_time_election(at(199), at(100), at(200)), Ok(()));
    assert_eq!(check_time_election(at(200), at(100), at(200)), Err(ElectionError::MalformedInstruction));
    assert_eq!(check_time_election(at(99), at(100), at(200)), Err(ElectionError::MalformedInstruction));
}

#[test]
fn election_window_counts_nanoseconds() {
    let start = Timestamp { seconds: 100, nanos: 500 };
    assert_eq!(
        check_time_election(Timestamp { seconds: 100, nanos: 499 }, start, at(200)),
        Err(ElectionError::MalformedInstruction)
    );
    assert_eq!(check_time_election(Timestamp { seconds: 100, nanos: 500 }, start, at(200)), Ok(()));
    assert_eq!(
        check_time_election(Timestamp { seconds: 199, nanos: 999_999_999 }, start, at(200)),
        Ok(())
    );
}

#[test]
fn registration_closes_when_the_election_starts() {
    assert_eq!(check_time_registration(at(99), at(100), at(200)), Ok(()));
    assert_eq!(
        check_time_registration(at(100), at(100), at(200)),
        Err(ElectionError::MalformedInstruction)
    );
    assert_eq!(
        check_time_registration(at(150), at(100), at(50)),
        Err(ElectionError::MalformedInstruction)
    );
}

#[test]
fn dates_are_accepted_up_to_twenty_minutes_ahead() {
    assert_eq!(check_dates(at(1000), at(2200), at(5000)), Ok(()));
    assert_eq!(check_dates(at(1000), at(2201), at(5000)), Err(ElectionError::MalformedInstruction));
    assert_eq!(check_dates(at(1000), at(500), at(5000)), Ok(()));
}

#[test]
fn dates_need_the_end_after_the_start() {
    assert_eq!(check_dates(at(1000), at(500), at(500)), Err(ElectionError::MalformedInstruction));
    assert_eq!(check_dates(at(1000), at(500), at(499)), Err(ElectionError::MalformedInstruction));
    assert_eq!(check_dates(at(1000), at(500), Timestamp { seconds: 500, nanos: 1 }), Ok(()));
}

#[test]
fn dates_at_the_edge_of_the_clock() {
    assert_eq!(check_dates(at(i64::MAX), at(i64::MAX - 1), at(i64::MAX)), Ok(()));
    assert_eq!(check_dates(at(i64::MIN), at(i64::MIN + 1200), at(0)), Ok(()));
    assert_eq!(
        check_dates(at(i64::MIN), at(i64::MIN + 1201), at(0)),
        Err(ElectionError::MalformedInstruction)
    );
}

#[test]
fn margin_from_a_leap_second_counts_from_the_full_second() {
    let now = Timestamp { seconds: 1000, nanos: 1_500_000_000 };
    assert_eq!(check_dates(now, Timestamp { seconds: 2200, nanos: 500_000_000 }, at(9000)), Ok(()));
    assert_eq!(
        check_dates(now, Timestamp { seconds: 2200, nanos: 500_000_001 }, at(9000)),
        Err(ElectionError::MalformedInstruction)
    );
}
