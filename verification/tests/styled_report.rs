// With colors forced on, the report lines really carry escape codes,
// and the column alignment must still hold on the stripped text.

use monzo_cli::{run_accounts, strip_styles, Account, AccountType, Balance, Pot};

#[test]
fn styling_is_invisible_to_the_layout() {
    console::set_colors_enabled(true);
    let account = Account {
        id: "acc_1".to_string(),
        account_number: "11223344".to_string(),
        account_type: AccountType::UkRetail,
    };
    let balance = Balance { balance: 10050, spend_today: 500, currency: "GBP".to_string() };
    let pots = vec![Pot { name: "Holiday".to_string(), balance: 2000, currency: "GBP".to_string() }];
    let lines = run_accounts(vec![account], vec![balance], vec![pots]).unwrap();

    // the header really is styled: stripping removes something
    assert_ne!(lines[0], strip_styles(&lines[0]));
    assert!(lines[0].contains('\u{1b}'));

    let visible: Vec<String> = lines.iter().map(|l| strip_styles(l)).collect();
    assert_eq!(visible[0], "Account ****3344 [personal]");
    let w = 28usize;
    assert_eq!(visible[1], format!("{:<w$} {} {}", "  Balance", "100.50", "GBP"));
    assert_eq!(visible[2], format!("{:<w$} {} {}", "  Spent today", "-5.0", "GBP"));
    assert_eq!(visible[4], format!("{:<w$}", "  Pot Holiday"));
    assert_eq!(visible[5], format!("{:<w$} {} {}", "    Balance", "20.0", "GBP"));
}
