use monzo_cli::{
    run_accounts, strip_styles, Account, AccountType, Balance, Error, Pot,
};

fn sample_account() -> Account {
    Account {
        id: "acc_1".to_string(),
        account_number: "11223344".to_string(),
        account_type: AccountType::UkRetail,
    }
}

fn sample_balance() -> Balance {
    Balance { balance: 10050, spend_today: 500, currency: "GBP".to_string() }
}

fn sample_pots() -> Vec<Pot> {
    vec![
        Pot { name: "Holiday".to_string(), balance: 2000, currency: "GBP".to_string() },
        Pot { name: "Empty".to_string(), balance: 0, currency: "GBP".to_string() },
    ]
}

#[test]
fn one_account_with_pots_renders_the_expected_block() {
    let lines = run_accounts(
        vec![sample_account()],
        vec![sample_balance()],
        vec![sample_pots()],
    )
    .unwrap();

    let visible: Vec<String> = lines.iter().map(|l| strip_styles(l)).collect();
    let w = 28usize; // visible header width 27, plus one space
    let expected = vec![
        "Account ****3344 [personal]".to_string(),
        format!("{:<w$} {} {}", "  Balance", "100.50", "GBP"),
        format!("{:<w$} {} {}", "  Spent today", "-5.0", "GBP"),
        String::new(),
        format!("{:<w$}", "  Pot Holiday"),
        format!("{:<w$} {} {}", "    Balance", "20.0", "GBP"),
        String::new(),
    ];
    assert_eq!(visible, expected);
    assert!(visible.iter().all(|l| !l.contains("Empty")));
}

#[test]
fn value_lines_share_one_column() {
    let lines = run_accounts(
        vec![sample_account()],
        vec![sample_balance()],
        vec![sample_pots()],
    )
    .unwrap();
    let visible: Vec<String> = lines.iter().map(|l| strip_styles(l)).collect();
    let col = visible[1].find("100.50").unwrap();
    assert_eq!(visible[2].find("-5.0").unwrap(), col);
    assert_eq!(visible[5].find("20.0").unwrap(), col);
}

#[test]
fn an_unrecognised_account_type_aborts_the_report() {
    let account = Account {
        id: "acc_1".to_string(),
        account_number: "11223344".to_string(),
        account_type: AccountType::Other,
    };
    let r = run_accounts(vec![account], vec![sample_balance()], vec![vec![]]);
    assert!(matches!(r, Err(Error::UnsupportedAccountType)));
}

#[test]
fn a_short_account_number_aborts_the_report() {
    let account = Account {
        id: "acc_1".to_string(),
        account_number: "123".to_string(),
        account_type: AccountType::UkRetail,
    };
    let r = run_accounts(vec![account], vec![sample_balance()], vec![vec![]]);
    assert!(matches!(r, Err(Error::InvalidInput)));
}

#[test]
fn accounts_render_in_fetched_order() {
    let first = sample_account();
    let second = Account {
        id: "acc_2".to_string(),
        account_number: "99887766".to_string(),
        account_type: AccountType::UkBusiness,
    };
    let other_balance = Balance { balance: 5, spend_today: 0, currency: "EUR".to_string() };
    let lines = run_accounts(
        vec![first, second],
        vec![sample_balance(), other_balance],
        vec![vec![], vec![]],
    )
    .unwrap();
    let visible: Vec<String> = lines.iter().map(|l| strip_styles(l)).collect();
    assert_eq!(visible.len(), 8);
    assert_eq!(visible[0], "Account ****3344 [personal]");
    assert_eq!(visible[4], "Account ****7766 [business]");
    assert!(visible[5].ends_with("0.5 EUR"));
    assert!(visible[6].ends_with("0.0 EUR"));
}
