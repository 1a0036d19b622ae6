use core::str::FromStr;
use kaptn::address::{same_address, Address};
use kaptn::ids::{parse_pubkey, pubkey_from_bytes, IdError};
use solana_program::pubkey::Pubkey;

#[test]
fn test_declare_id() {
    let good = Pubkey::from_str("Fg6PaFpoGXkYsidMpWTK6W2BeZ7FEfcYkg476zPFsLnS").unwrap();
    let bad = Pubkey::from_str("A7yUYJNEVYRLE4QWsnc9rE9JRsm7DfqEmLscQVwkffAk").unwrap();
    let id = parse_pubkey("Fg6PaFpoGXkYsidMpWTK6W2BeZ7FEfcYkg476zPFsLnS").unwrap();
    assert_eq!(good.to_bytes(), id.0);
    assert_eq!(Address(good.to_bytes()), id);
    assert!(same_address(&Address(good.to_bytes()), &id));
    assert!(!same_address(&Address(bad.to_bytes()), &id));
}

#[test]
fn test_declare_mint() {
    let good = Pubkey::from_str("Fg6PaFpoGXkYsidMpWTK6W2BeZ7FEfcYkg476zPFsLnS").unwrap();
    let bad = Pubkey::from_str("A7yUYJNEVYRLE4QWsnc9rE9JRsm7DfqEmLscQVwkffAk").unwrap();
    let mint = parse_pubkey("Fg6PaFpoGXkYsidMpWTK6W2BeZ7FEfcYkg476zPFsLnS").unwrap();
    assert_eq!(good.to_bytes(), mint.0);
    assert_eq!(Address(good.to_bytes()), mint);
    assert!(same_address(&Address(good.to_bytes()), &mint));
    assert!(!same_address(&Address(bad.to_bytes()), &mint));
}

#[test]
fn declared_ids_that_do_not_read() {
    assert_eq!(parse_pubkey("0OIl"), Err(IdError::InvalidBase58));
    assert_eq!(parse_pubkey("3yZe7d"), Err(IdError::WrongLength(4)));
    assert_eq!(parse_pubkey("11111111111111111111111111111111"), Ok(Address([0u8; 32])));
    assert_eq!(pubkey_from_bytes(&vec![1u8; 31]), Err(IdError::WrongLength(31)));
    assert_eq!(pubkey_from_bytes(&vec![1u8; 32]), Ok(Address([1u8; 32])));
}
