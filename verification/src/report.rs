//! The report renderer: from fetched accounts, balances and pots to the
//! full list of report lines.
//!
//! For each account: a styled header naming the masked account number
//! and the display category, a balance line, a spent-today line (the
//! recorded spend shown negated, as an outflow), a blank separator, and
//! for each pot with a non-zero balance a styled pot header and balance
//! line. Every value line is aligned to one column: the visible width
//! of the account header plus one.

use vstd::prelude::*;

use crate::account::{
    obfuscate, resolve_type, spec_obfuscate, spec_resolve_type, Account, Balance, Pot,
};
use crate::amount::{format_amount, spec_format_amount};
use crate::error::Error;
use crate::style::{style_bold_cyan, style_bold_magenta};
use crate::text::{
    align, lemma_clean_strip_closed, lemma_strip_append, lemma_strip_no_esc, lemma_strip_pad,
    no_esc, spec_align, spec_pad, strip_styles_spec, visible_len,
};

verus! {

/// One account with the balance and pots fetched for it, paired by
/// request position.
pub struct AccountData {
    pub account: Account,
    pub balance: Balance,
    pub pots: Vec<Pot>,
}

/// Why rendering one account fails, if it does: an unmapped type tag
/// first, then a number too short to mask.
pub open spec fn spec_account_error(d: AccountData) -> Option<Error> {
    if spec_resolve_type(d.account.account_type) is Err {
        Some(Error::UnsupportedAccountType)
    } else if d.account.account_number@.len() < 4 {
        Some(Error::InvalidInput)
    } else {
        None
    }
}

/// The display category of the account, where one exists.
pub open spec fn spec_category(d: AccountData) -> Seq<char> {
    match spec_resolve_type(d.account.account_type) {
        Ok(s) => s,
        Err(_) => Seq::empty(),
    }
}

/// The visible text of the account header line.
pub open spec fn spec_header_vis(d: AccountData) -> Seq<char> {
    "Account"@ + " "@ + spec_obfuscate(d.account.account_number@) + " ["@ + spec_category(d)
        + "]"@
}

/// The alignment target for every line under this account: the visible
/// header width plus one space.
pub open spec fn spec_col_width(d: AccountData) -> int {
    spec_header_vis(d).len() as int + 1
}

/// A plain text padded to the column: its visible width is its length.
pub open spec fn plain_pad(s: Seq<char>, w: int) -> Seq<char> {
    spec_pad(s, s.len() as int, w)
}

/// The visible balance line of an account.
pub open spec fn spec_balance_line(d: AccountData, w: int) -> Seq<char> {
    plain_pad("  Balance"@, w) + " "@ + spec_format_amount(d.balance.balance as int) + " "@
        + d.balance.currency@
}

/// The visible spent-today line: the recorded spend, negated.
pub open spec fn spec_spent_line(d: AccountData, w: int) -> Seq<char> {
    plain_pad("  Spent today"@, w) + " "@ + spec_format_amount(-(d.balance.spend_today as int))
        + " "@ + d.balance.currency@
}

/// The visible header line of a pot.
pub open spec fn spec_pot_header(p: Pot, w: int) -> Seq<char> {
    plain_pad("  "@ + "Pot"@ + " "@ + p.name@, w)
}

/// The visible balance line of a pot.
pub open spec fn spec_pot_balance(p: Pot, w: int) -> Seq<char> {
    plain_pad("    Balance"@, w) + " "@ + spec_format_amount(p.balance as int) + " "@
        + p.currency@
}

/// The visible lines of one pot: nothing at all for a zero balance.
pub open spec fn spec_pot_lines_one(p: Pot, w: int) -> Seq<Seq<char>> {
    if p.balance == 0 {
        Seq::empty()
    } else {
        seq![spec_pot_header(p, w), spec_pot_balance(p, w), Seq::<char>::empty()]
    }
}

/// The visible lines of a run of pots, in fetched order.
pub open spec fn spec_pot_lines(pots: Seq<Pot>, w: int) -> Seq<Seq<char>>
    decreases pots.len(),
{
    if pots.len() == 0 {
        Seq::empty()
    } else {
        spec_pot_lines_one(pots[0], w) + spec_pot_lines(pots.skip(1), w)
    }
}

/// The visible lines of one account's report block.
pub open spec fn spec_account_lines(d: AccountData) -> Seq<Seq<char>> {
    let w = spec_col_width(d);
    seq![
        spec_header_vis(d),
        spec_balance_line(d, w),
        spec_spent_line(d, w),
        Seq::<char>::empty(),
    ] + spec_pot_lines(d.pots@, w)
}

/// Holds when none of the fetched strings of this account carries an
/// escape character of its own, so stripping a rendered line leaves
/// exactly the visible text.
pub open spec fn account_data_clean(d: AccountData) -> bool {
    &&& no_esc(d.account.account_number@)
    &&& no_esc(d.balance.currency@)
    &&& forall|i: int|
        0 <= i < d.pots@.len() ==> no_esc((#[trigger] d.pots@[i]).name@) && no_esc(
            d.pots@[i].currency@,
        )
}

proof fn lemma_pot_lines_snoc(pots: Seq<Pot>, p: Pot, w: int)
    ensures
        spec_pot_lines(pots.push(p), w) == spec_pot_lines(pots, w) + spec_pot_lines_one(p, w),
    decreases pots.len(),
{
    if pots.len() == 0 {
        assert(pots.push(p)[0] == p);
        assert(pots.push(p).skip(1) =~= Seq::<Pot>::empty());
        assert(spec_pot_lines(pots.push(p).skip(1), w) =~= Seq::<Seq<char>>::empty());
        assert(spec_pot_lines(pots.push(p), w) =~= spec_pot_lines_one(p, w));
        assert(spec_pot_lines(pots, w) + spec_pot_lines_one(p, w) =~= spec_pot_lines_one(p, w));
    } else {
        assert(pots.push(p)[0] == pots[0]);
        assert(pots.push(p).skip(1) =~= pots.skip(1).push(p));
        lemma_pot_lines_snoc(pots.skip(1), p, w);
        assert(spec_pot_lines_one(pots.push(p)[0], w) + (spec_pot_lines(pots.skip(1), w)
            + spec_pot_lines_one(p, w)) =~= (spec_pot_lines_one(pots[0], w) + spec_pot_lines(
            pots.skip(1),
            w,
        )) + spec_pot_lines_one(p, w));
    }
}

/// A plain value line: the label aligned to the column, one space, the
/// rendered amount, one space, the currency code.
fn amount_line(label: &str, w: usize, amount: i64, currency: &str) -> (r: String)
    ensures
        r@ == spec_align(label@, w as int) + " "@ + spec_format_amount(amount as int) + " "@
            + currency@,
{
    let mut out = align(label, w);
    out.append(" ");
    let digits = format_amount(amount);
    out.append(digits.as_str());
    out.append(" ");
    out.append(currency);
    out
}

/// Renders the report block of one account, or the error that aborts
/// the whole report: an unmapped account type, or an account number too
/// short to mask.
pub fn render_account(d: &AccountData) -> (r: Result<Vec<String>, Error>)
    requires
        d.balance.spend_today != i64::MIN,
        d.account.account_number@.len() <= usize::MAX - 20,
    ensures
        match spec_account_error(*d) {
            Some(e) => r == Err::<Vec<String>, Error>(e),
            None => r matches Ok(lines) && {
                &&& lines@.len() == spec_account_lines(*d).len()
                &&& account_data_clean(*d) ==> forall|i: int|
                    0 <= i < lines@.len() ==> strip_styles_spec(#[trigger] lines@[i]@)
                        == spec_account_lines(*d)[i]
            },
        },
{
    let ghost w_spec = spec_col_width(*d);
    let cat = match resolve_type(d.account.account_type) {
        Ok(c) => c,
        Err(e) => {
            return Err(e);
        },
    };
    let obf = match obfuscate(d.account.account_number.as_str()) {
        Ok(o) => o,
        Err(e) => {
            return Err(e);
        },
    };
    proof {
        reveal_strlit("Account");
        assert(no_esc("Account"@));
    }
    let mut header = style_bold_cyan("Account");
    let ghost styled = header@;
    header.append(" ");
    header.append(obf.as_str());
    header.append(" [");
    header.append(cat);
    header.append("]");
    let ghost tail = " "@ + obf@ + " ["@ + cat@ + "]"@;
    proof {
        assert(header@ =~= styled + tail);
        lemma_clean_strip_closed(styled);
        lemma_strip_append(styled, tail);
        if account_data_clean(*d) {
            assert(no_esc(spec_obfuscate(d.account.account_number@))) by {
                crate::account::lemma_obfuscate_no_esc(d.account.account_number@);
            }
            reveal_strlit(" ");
            reveal_strlit(" [");
            reveal_strlit("]");
            reveal_strlit("personal");
            reveal_strlit("joint");
            reveal_strlit("business");
            assert(no_esc(tail));
            lemma_strip_no_esc(tail);
            assert(strip_styles_spec(header@) =~= spec_header_vis(*d));
        }
    }
    let v = visible_len(header.as_str());
    // the width saturates at the machine limit instead of overflowing
    let w: usize = if v == usize::MAX {
        v
    } else {
        v + 1
    };
    proof {
        if account_data_clean(*d) {
            assert(v == spec_header_vis(*d).len());
            crate::account::lemma_obfuscate_len(d.account.account_number@);
            assert(spec_category(*d).len() <= 8);
            assert(v < usize::MAX);
            assert(w as int == w_spec);
        }
    }
    let mut lines: Vec<String> = Vec::new();
    lines.push(header);
    let l1 = amount_line("  Balance", w, d.balance.balance, d.balance.currency.as_str());
    lines.push(l1);
    let l2 = amount_line("  Spent today", w, -d.balance.spend_today, d.balance.currency.as_str());
    lines.push(l2);
    lines.push(String::new());
    proof {
        if account_data_clean(*d) {
            reveal_strlit("  Balance");
            reveal_strlit("  Spent today");
            assert(no_esc("  Balance"@));
            assert(no_esc("  Spent today"@));
            crate::amount::lemma_format_amount_no_esc(d.balance.balance as int);
            crate::amount::lemma_format_amount_no_esc(-(d.balance.spend_today as int));
            lemma_plain_line_strip("  Balance"@, w as int, spec_format_amount(
                d.balance.balance as int,
            ), d.balance.currency@);
            lemma_plain_line_strip("  Spent today"@, w as int, spec_format_amount(
                -(d.balance.spend_today as int),
            ), d.balance.currency@);
            assert(strip_styles_spec(lines@[1]@) =~= spec_balance_line(*d, w_spec));
            assert(strip_styles_spec(lines@[2]@) =~= spec_spent_line(*d, w_spec));
            assert(strip_styles_spec(lines@[3]@) =~= Seq::<char>::empty());
        }
    }
    let n = d.pots.len();
    let mut i: usize = 0;
    while i < n
        invariant
            0 <= i <= n,
            n == d.pots@.len(),
            d.balance.spend_today != i64::MIN,
            lines@.len() == 4 + spec_pot_lines(d.pots@.take(i as int), w_spec).len(),
            account_data_clean(*d) ==> {
                &&& w_spec == w as int
                &&& forall|j: int|
                    0 <= j < lines@.len() ==> strip_styles_spec(#[trigger] lines@[j]@) == (seq![
                        spec_header_vis(*d),
                        spec_balance_line(*d, w_spec),
                        spec_spent_line(*d, w_spec),
                        Seq::<char>::empty(),
                    ] + spec_pot_lines(d.pots@.take(i as int), w_spec))[j]
            },
        decreases n - i,
    {
        let ghost lines_pre = lines@;
        let p_balance = d.pots[i].balance;
        if p_balance != 0 {
            let mut pot_line = String::from_str("  ");
            let styled_pot = style_bold_magenta_checked();
            pot_line.append(styled_pot.as_str());
            pot_line.append(" ");
            pot_line.append(d.pots[i].name.as_str());
            let aligned = align(pot_line.as_str(), w);
            proof {
                if account_data_clean(*d) {
                    reveal_strlit("  ");
                    reveal_strlit(" ");
                    reveal_strlit("Pot");
                    assert(no_esc("Pot"@));
                    assert(no_esc("  "@));
                    assert(pot_line@ =~= "  "@ + (styled_pot@ + (" "@ + d.pots@[i as int].name@)));
                    lemma_strip_no_esc("  "@);
                    lemma_clean_strip_closed("  "@);
                    lemma_strip_append("  "@, styled_pot@ + (" "@ + d.pots@[i as int].name@));
                    lemma_clean_strip_closed(styled_pot@);
                    lemma_strip_append(styled_pot@, " "@ + d.pots@[i as int].name@);
                    assert(no_esc(" "@ + d.pots@[i as int].name@));
                    lemma_strip_no_esc(" "@ + d.pots@[i as int].name@);
                    lemma_strip_pad(pot_line@, w as int);
                    assert(strip_styles_spec(pot_line@) =~= "  "@ + "Pot"@ + " "@
                        + d.pots@[i as int].name@);
                    assert(strip_styles_spec(aligned@) =~= spec_pot_header(
                        d.pots@[i as int],
                        w_spec,
                    ));
                }
            }
            lines.push(aligned);
            let pl = amount_line(
                "    Balance",
                w,
                d.pots[i].balance,
                d.pots[i].currency.as_str(),
            );
            lines.push(pl);
            lines.push(String::new());
            proof {
                if account_data_clean(*d) {
                    reveal_strlit("    Balance");
                    assert(no_esc("    Balance"@));
                    crate::amount::lemma_format_amount_no_esc(d.pots@[i as int].balance as int);
                    lemma_plain_line_strip("    Balance"@, w as int, spec_format_amount(
                        d.pots@[i as int].balance as int,
                    ), d.pots@[i as int].currency@);
                    assert(strip_styles_spec(lines@[lines_pre.len() as int + 1]@)
                        =~= spec_pot_balance(
                        d.pots@[i as int],
                        w_spec,
                    ));
                    assert(strip_styles_spec(lines@[lines_pre.len() as int + 2]@) =~= Seq::<
                        char,
                    >::empty());
                }
            }
        }
        proof {
            assert(d.pots@.take(i + 1) =~= d.pots@.take(i as int).push(d.pots@[i as int]));
            lemma_pot_lines_snoc(d.pots@.take(i as int), d.pots@[i as int], w_spec);
        }
        i += 1;
    }
    proof {
        assert(d.pots@.take(n as int) =~= d.pots@);
    }
    Ok(lines)
}

/// The styled pot label; kept beside the loop so the escape-freedom of
/// the label is established once.
fn style_bold_magenta_checked() -> (r: String)
    ensures
        strip_styles_spec(r@) == "Pot"@,
{
    proof {
        reveal_strlit("Pot");
        assert(no_esc("Pot"@));
    }
    style_bold_magenta("Pot")
}

/// The first rendering error over a run of accounts, in fetched order.
pub open spec fn spec_report_error(ds: Seq<AccountData>) -> Option<Error>
    decreases ds.len(),
{
    if ds.len() == 0 {
        None
    } else {
        match spec_account_error(ds[0]) {
            Some(e) => Some(e),
            None => spec_report_error(ds.skip(1)),
        }
    }
}

/// The visible lines of the whole report: each account's block, in
/// fetched order, with no trailing summary.
pub open spec fn spec_report_lines(ds: Seq<AccountData>) -> Seq<Seq<char>>
    decreases ds.len(),
{
    if ds.len() == 0 {
        Seq::empty()
    } else {
        spec_account_lines(ds[0]) + spec_report_lines(ds.skip(1))
    }
}

/// Every account's fetched strings are free of escape characters.
pub open spec fn report_clean(ds: Seq<AccountData>) -> bool {
    forall|i: int| 0 <= i < ds.len() ==> account_data_clean(#[trigger] ds[i])
}

proof fn lemma_report_lines_snoc(ds: Seq<AccountData>, d: AccountData)
    ensures
        spec_report_lines(ds.push(d)) == spec_report_lines(ds) + spec_account_lines(d),
    decreases ds.len(),
{
    if ds.len() == 0 {
        assert(ds.push(d)[0] == d);
        assert(ds.push(d).skip(1) =~= Seq::<AccountData>::empty());
        assert(spec_report_lines(ds.push(d).skip(1)) =~= Seq::<Seq<char>>::empty());
        assert(spec_report_lines(ds.push(d)) =~= spec_account_lines(d));
        assert(spec_report_lines(ds) + spec_account_lines(d) =~= spec_account_lines(d));
    } else {
        assert(ds.push(d)[0] == ds[0]);
        assert(ds.push(d).skip(1) =~= ds.skip(1).push(d));
        lemma_report_lines_snoc(ds.skip(1), d);
        assert(spec_account_lines(ds.push(d)[0]) + (spec_report_lines(ds.skip(1))
            + spec_account_lines(d)) =~= (spec_account_lines(ds[0]) + spec_report_lines(
            ds.skip(1),
        )) + spec_account_lines(d));
    }
}

/// Renders the whole report, one block per account in fetched order,
/// or the error of the first account that cannot be rendered; one bad
/// account aborts the whole report.
pub fn render_report(data: &Vec<AccountData>) -> (r: Result<Vec<String>, Error>)
    requires
        forall|i: int|
            0 <= i < data@.len() ==> (#[trigger] data@[i]).balance.spend_today != i64::MIN
                && data@[i].account.account_number@.len() <= usize::MAX - 20,
    ensures
        match spec_report_error(data@) {
            Some(e) => r == Err::<Vec<String>, Error>(e),
            None => r matches Ok(lines) && {
                &&& lines@.len() == spec_report_lines(data@).len()
                &&& report_clean(data@) ==> forall|i: int|
                    0 <= i < lines@.len() ==> strip_styles_spec(#[trigger] lines@[i]@)
                        == spec_report_lines(data@)[i]
            },
        },
{
    let mut lines: Vec<String> = Vec::new();
    let n = data.len();
    let mut i: usize = 0;
    proof {
        assert(data@.skip(0) =~= data@);
        assert(data@.take(0) =~= Seq::<AccountData>::empty());
        assert(spec_report_lines(data@.take(0)) =~= Seq::<Seq<char>>::empty());
    }
    while i < n
        invariant
            0 <= i <= n,
            n == data@.len(),
            forall|j: int|
                0 <= j < data@.len() ==> (#[trigger] data@[j]).balance.spend_today != i64::MIN
                    && data@[j].account.account_number@.len() <= usize::MAX - 20,
            forall|j: int| 0 <= j < i ==> spec_account_error(#[trigger] data@[j]) is None,
            spec_report_error(data@) == spec_report_error(data@.skip(i as int)),
            lines@.len() == spec_report_lines(data@.take(i as int)).len(),
            report_clean(data@) ==> forall|j: int|
                0 <= j < lines@.len() ==> strip_styles_spec(#[trigger] lines@[j]@)
                    == spec_report_lines(data@.take(i as int))[j],
        decreases n - i,
    {
        proof {
            assert(data@.skip(i as int)[0] == data@[i as int]);
            assert(data@.skip(i as int).skip(1) =~= data@.skip(i as int + 1));
        }
        match render_account(&data[i]) {
            Ok(mut block) => {
                proof {
                    assert(data@.take(i as int + 1) =~= data@.take(i as int).push(
                        data@[i as int],
                    ));
                    lemma_report_lines_snoc(data@.take(i as int), data@[i as int]);
                }
                lines.append(&mut block);
            },
            Err(e) => {
                return Err(e);
            },
        }
        i += 1;
    }
    proof {
        assert(data@.take(n as int) =~= data@);
        assert(data@.skip(n as int) =~= Seq::<AccountData>::empty());
    }
    Ok(lines)
}

proof fn lemma_plain_line_strip(label: Seq<char>, w: int, amount: Seq<char>, currency: Seq<char>)
    requires
        no_esc(label),
        no_esc(amount),
        no_esc(currency),
    ensures
        strip_styles_spec(spec_align(label, w) + " "@ + amount + " "@ + currency) == plain_pad(
            label,
            w,
        ) + " "@ + amount + " "@ + currency,
{
    reveal_strlit(" ");
    lemma_strip_no_esc(label);
    crate::text::lemma_spaces_no_esc((w - label.len()) as nat);
    assert(no_esc(spec_align(label, w) + " "@ + amount + " "@ + currency)) by {
        assert(no_esc(" "@));
        assert(spec_align(label, w) == plain_pad(label, w));
    }
    lemma_strip_no_esc(spec_align(label, w) + " "@ + amount + " "@ + currency);
    assert(spec_align(label, w) == plain_pad(label, w));
}

} // verus!
