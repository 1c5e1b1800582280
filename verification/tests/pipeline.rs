use monzo_cli::{
    collect_all, list_transactions, zip_account_data, Account, AccountType, Balance, Config,
    Error, Pot,
};

fn balance(amount: i64) -> Balance {
    Balance { balance: amount, spend_today: 0, currency: "GBP".to_string() }
}

#[test]
fn one_failed_fetch_fails_the_whole_fan_out() {
    let results: Vec<Result<Balance, Error>> =
        vec![Ok(balance(1)), Err(Error::ApiError), Ok(balance(3))];
    let collected = collect_all(results);
    assert!(matches!(collected, Err(Error::ApiError)));
}

#[test]
fn an_all_ok_fan_out_is_collected_in_request_order() {
    let results: Vec<Result<Balance, Error>> = vec![Ok(balance(1)), Ok(balance(2))];
    let collected = collect_all(results).unwrap();
    assert_eq!(collected.len(), 2);
    assert_eq!(collected[0].balance, 1);
    assert_eq!(collected[1].balance, 2);
}

#[test]
fn the_first_failure_wins() {
    let results: Vec<Result<Balance, Error>> =
        vec![Err(Error::ApiError), Err(Error::WriteError)];
    assert!(matches!(collect_all(results), Err(Error::ApiError)));
}

#[test]
fn pairing_is_positional() {
    let accounts = vec![
        Account {
            id: "a".to_string(),
            account_number: "11112222".to_string(),
            account_type: AccountType::UkRetail,
        },
        Account {
            id: "b".to_string(),
            account_number: "33334444".to_string(),
            account_type: AccountType::UkBusiness,
        },
    ];
    let balances = vec![balance(10), balance(20)];
    let pots = vec![
        vec![],
        vec![Pot { name: "Fund".to_string(), balance: 5, currency: "GBP".to_string() }],
    ];
    let data = zip_account_data(accounts, balances, pots);
    assert_eq!(data.len(), 2);
    assert_eq!(data[0].account.id, "a");
    assert_eq!(data[0].balance.balance, 10);
    assert!(data[0].pots.is_empty());
    assert_eq!(data[1].account.id, "b");
    assert_eq!(data[1].balance.balance, 20);
    assert_eq!(data[1].pots[0].name, "Fund");
}

#[test]
fn a_missing_token_is_a_config_error() {
    let config = Config::new();
    assert!(matches!(config.get_token(), Err(Error::ConfigError)));
}

#[test]
fn a_stored_token_is_handed_back() {
    let mut config = Config::new();
    config.set_token("access-token-123".to_string());
    assert_eq!(config.get_token().unwrap(), "access-token-123");
}

#[test]
fn listing_transactions_is_not_implemented() {
    assert!(matches!(list_transactions(), Err(Error::UnimplementedCommand)));
}
