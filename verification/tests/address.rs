use chain_democracy::address::derive_with_bump;
use chain_democracy::address::derive_address;
use chain_democracy::address::find_attached_address;
use chain_democracy::address::find_candidate_address;
use chain_democracy::address::find_election_address;
use chain_democracy::address::make_attached_seeds;
use chain_democracy::address::make_candidate_seeds;
use chain_democracy::address::make_election_seeds;
use chain_democracy::address::Address;
use solana_program::pubkey::Pubkey;

fn program() -> Address {
    Address { bytes: [7; 32] }
}

#[test]
fn derivation_is_deterministic() {
    let tuples: Vec<Vec<Vec<u8>>> = vec![
        vec![],
        vec![b"mayor-2024".to_vec()],
        vec![vec![7; 32], b"mayor-2024".to_vec()],
        vec![vec![7; 32], b"mayor-2024".to_vec(), b"candidate-list".to_vec()],
        vec![vec![7; 32], b"mayor-2024".to_vec(), b"result".to_vec()],
        vec![vec![1; 32], b"mayor-2024".to_vec(), b"Alice".to_vec(), b"Rossi".to_vec()],
        vec![vec![7; 32], b"mayor-2024".to_vec(), b"CARD-001".to_vec()],
        vec![Vec::new(), Vec::new()],
    ];
    for seeds in &tuples {
        let first = derive_with_bump(seeds, &program());
        let second = derive_with_bump(seeds, &program());
        assert!(first.is_some());
        assert_eq!(first, second);
    }
}

#[test]
fn derivation_agrees_with_the_ledger() {
    let seeds = vec![vec![7u8; 32], b"mayor-2024".to_vec()];
    let id = Pubkey::new_from_array([7; 32]);
    let (key, bump) = Pubkey::find_program_address(&[&[7u8; 32], b"mayor-2024"], &id);
    assert_eq!(derive_with_bump(&seeds, &program()), Some((Address { bytes: key.to_bytes() }, bump)));
    assert_eq!(derive_address(&seeds, &program()), Some(Address { bytes: key.to_bytes() }));
    assert!(!key.is_on_curve());
}

#[test]
fn derivation_depends_on_seeds_and_program() {
    let a = derive_address(&vec![b"mayor-2024".to_vec()], &program());
    let b = derive_address(&vec![b"mayor-2025".to_vec()], &program());
    let c = derive_address(&vec![b"mayor-2024".to_vec()], &Address { bytes: [8; 32] });
    let d = derive_address(&vec![b"mayor".to_vec(), b"-2024".to_vec()], &program());
    assert_ne!(a, b);
    assert_ne!(a, c);
    assert!(a.is_some() && b.is_some() && c.is_some() && d.is_some());
    assert_ne!(a, Some(program()));
}

#[test]
fn seed_longer_than_thirty_two_bytes_has_no_address() {
    assert!(derive_with_bump(&vec![vec![0u8; 32]], &program()).is_some());
    assert_eq!(derive_with_bump(&vec![vec![0u8; 33]], &program()), None);
    assert_eq!(find_election_address(&program(), "an-election-name-of-more-than-32-bytes"), None);
}

#[test]
fn more_than_fifteen_seeds_have_no_address() {
    let fifteen: Vec<Vec<u8>> = (0..15u8).map(|i| vec![i]).collect();
    let sixteen: Vec<Vec<u8>> = (0..16u8).map(|i| vec![i]).collect();
    assert!(derive_with_bump(&fifteen, &program()).is_some());
    assert_eq!(derive_with_bump(&sixteen, &program()), None);
}

#[test]
fn seeds_of_each_record_kind() {
    let creator = Address { bytes: [1; 32] };
    assert_eq!(
        make_election_seeds(&program(), "mayor-2024"),
        vec![vec![7u8; 32], b"mayor-2024".to_vec()]
    );
    assert_eq!(
        make_attached_seeds(&program(), "mayor-2024", "candidate-list"),
        vec![vec![7u8; 32], b"mayor-2024".to_vec(), b"candidate-list".to_vec()]
    );
    assert_eq!(
        make_candidate_seeds(&creator, "mayor-2024", "Alice", "Rossi"),
        vec![vec![1u8; 32], b"mayor-2024".to_vec(), b"Alice".to_vec(), b"Rossi".to_vec()]
    );
}

#[test]
fn addresses_of_each_record_kind() {
    let creator = Address { bytes: [1; 32] };
    let id = Pubkey::new_from_array([7; 32]);
    let election = Pubkey::find_program_address(&[&[7u8; 32], b"mayor-2024"], &id).0;
    let list =
        Pubkey::find_program_address(&[&[7u8; 32], b"mayor-2024", b"candidate-list"], &id).0;
    let result = Pubkey::find_program_address(&[&[7u8; 32], b"mayor-2024", b"result"], &id).0;
    let voter = Pubkey::find_program_address(&[&[7u8; 32], b"mayor-2024", b"CARD-001"], &id).0;
    let candidate =
        Pubkey::find_program_address(&[&[1u8; 32], b"mayor-2024", b"Alice", b"Rossi"], &id).0;
    assert_eq!(
        find_election_address(&program(), "mayor-2024"),
        Some(Address { bytes: election.to_bytes() })
    );
    assert_eq!(
        find_attached_address(&program(), "mayor-2024", "candidate-list"),
        Some(Address { bytes: list.to_bytes() })
    );
    assert_eq!(
        find_attached_address(&program(), "mayor-2024", "result"),
        Some(Address { bytes: result.to_bytes() })
    );
    assert_eq!(
        find_attached_address(&program(), "mayor-2024", "CARD-001"),
        Some(Address { bytes: voter.to_bytes() })
    );
    assert_eq!(
        find_candidate_address(&program(), &creator, "mayor-2024", "Alice", "Rossi"),
        Some(Address { bytes: candidate.to_bytes() })
    );
}

#[test]
fn addresses_compare_by_their_bytes() {
    let a = Address { bytes: [3; 32] };
    let mut bytes = [3u8; 32];
    assert!(a.same(&Address { bytes }));
    bytes[31] = 4;
    assert!(!a.same(&Address { bytes }));
    assert_eq!(a.to_vec(), vec![3u8; 32]);
}
