use kaptn::address::Address;
use kaptn::pda::{
    find_program_address, get_extra_account_metas_address_and_bump_seed, is_record_address,
    verify_program_address,
};
use solana_program::pubkey::Pubkey;

fn pk(a: &Address) -> Pubkey {
    Pubkey::new_from_array(a.0)
}

#[test]
fn derivation_matches_runtime_search() {
    let program = Address([3u8; 32]);
    let seeds = vec![b"hello".to_vec(), vec![1, 2, 3]];
    let (a, bump) = find_program_address(&seeds, &program).unwrap();
    let (expected, expected_bump) = Pubkey::find_program_address(&[b"hello", &[1, 2, 3]], &pk(&program));
    assert_eq!(pk(&a), expected);
    assert_eq!(bump, expected_bump);
    assert_ne!(a, program);
}

#[test]
fn derivation_is_deterministic_and_verified() {
    let program = Address([11u8; 32]);
    let mint = Address([22u8; 32]);
    let first = get_extra_account_metas_address_and_bump_seed(&mint, &program).unwrap();
    let second = get_extra_account_metas_address_and_bump_seed(&mint, &program).unwrap();
    assert_eq!(first, second);
    assert!(is_record_address(&first.0, &mint, &program));
    let mut tampered = first.0;
    tampered.0[0] ^= 1;
    assert!(!is_record_address(&tampered, &mint, &program));
}

#[test]
fn record_address_matches_interface() {
    let program = Address([11u8; 32]);
    let mint = Address([22u8; 32]);
    let (a, bump) = get_extra_account_metas_address_and_bump_seed(&mint, &program).unwrap();
    let (expected, expected_bump) =
        spl_transfer_hook_interface::get_extra_account_metas_address_and_bump_seed(&pk(&mint), &pk(&program));
    assert_eq!(pk(&a), expected);
    assert_eq!(bump, expected_bump);
}

#[test]
fn too_many_or_too_long_seeds_give_nothing() {
    let program = Address([5u8; 32]);
    let many: Vec<Vec<u8>> = (0..16).map(|i| vec![i as u8]).collect();
    assert_eq!(find_program_address(&many, &program), None);
    let long = vec![vec![0u8; 33]];
    assert_eq!(find_program_address(&long, &program), None);
    assert!(!verify_program_address(&program, &long, &program));
}
