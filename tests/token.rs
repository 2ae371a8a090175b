use crowdfunding::token::{TokenContract, TokenError};

#[test]
fn test_initialize_token() {
    let mut client = TokenContract::new();
    let name = String::from("Indonesian Rupiah");
    let symbol = String::from("IDR");
    let supply = 1_000_000_000i128;
    client.initialize(name.clone(), symbol.clone(), supply).unwrap();
    assert_eq!(client.get_name(), name);
    assert_eq!(client.get_symbol(), symbol);
    assert_eq!(client.get_total_supply(), supply);
    assert_eq!(client.get_balance(), supply);
}

#[test]
fn test_get_token_info() {
    let mut client = TokenContract::new();
    let name = String::from("Workshop Token");
    let symbol = String::from("WST");
    let supply = 5_000_000i128;
    client.initialize(name.clone(), symbol.clone(), supply).unwrap();
    assert_eq!(client.get_name(), name);
    assert_eq!(client.get_symbol(), symbol);
    assert_eq!(client.get_total_supply(), supply);
}

#[test]
fn test_initialize_invalid_supply() {
    let mut client = TokenContract::new();
    let name = String::from("Bad Token");
    let symbol = String::from("BAD");
    let supply = 0i128;
    assert_eq!(client.initialize(name, symbol, supply), Err(TokenError::InvalidSupply));
    assert_eq!(client.get_balance(), 0);
}

#[test]
fn test_transfer() {
    let mut client = TokenContract::new();
    let name = String::from("Test Token");
    let symbol = String::from("TST");
    let supply = 1_000_000i128;
    client.initialize(name, symbol, supply).unwrap();
    let transfer_amount = 100_000i128;
    client.transfer(transfer_amount).unwrap();
    assert_eq!(client.get_balance(), supply - transfer_amount);
}

#[test]
fn transfer_refuses_bad_amounts() {
    let mut client = TokenContract::new();
    client.initialize(String::from("T"), String::from("T"), 50).unwrap();
    assert_eq!(client.transfer(0), Err(TokenError::InvalidAmount));
    assert_eq!(client.transfer(-1), Err(TokenError::InvalidAmount));
    assert_eq!(client.transfer(51), Err(TokenError::InsufficientBalance));
    assert_eq!(client.get_balance(), 50);
    assert_eq!(client.transfer(50), Ok(()));
    assert_eq!(client.get_balance(), 0);
}
