//! The command level: which command was asked for, the explicit
//! pairing of fan-out results with their accounts, and the
//! all-or-nothing collection of fetch results.
//!
//! Fetching itself happens outside; this module receives the fetched
//! values, in request order, and decides everything else.

use vstd::prelude::*;

use crate::account::{Account, Balance, Pot};
use crate::error::Error;
use crate::report::{render_report, AccountData};

verus! {

/// The command the user asked for.
#[derive(Clone, Copy, PartialEq, Eq, Structural, Debug)]
pub enum Command {
    /// List all accounts with their balances and pots.
    Accounts,
    /// List transactions.
    List,
}

/// The decoded command line.
pub struct Args {
    pub command: Command,
}

/// Listing transactions is not implemented: it fails fast with a clear
/// signal rather than hang or silently do nothing.
pub fn list_transactions() -> (r: Result<Vec<String>, Error>)
    ensures
        r == Err::<Vec<String>, Error>(Error::UnimplementedCommand),
{
    Err(Error::UnimplementedCommand)
}

/// The first error in a run of fetch results, in request order.
pub open spec fn spec_first_err<T>(rs: Seq<Result<T, Error>>) -> Option<Error>
    decreases rs.len(),
{
    if rs.len() == 0 {
        None
    } else {
        match rs[0] {
            Err(e) => Some(e),
            Ok(_) => spec_first_err(rs.skip(1)),
        }
    }
}

/// Collects a fan-out of fetch results all-or-nothing: every result in
/// request order if all succeeded, the first failure otherwise. A
/// single failed fetch fails the whole fan-out; no partial collection.
pub fn collect_all<T>(results: Vec<Result<T, Error>>) -> (r: Result<Vec<T>, Error>)
    ensures
        match spec_first_err(results@) {
            Some(e) => r == Err::<Vec<T>, Error>(e),
            None => r matches Ok(v) && v@.len() == results@.len() && forall|i: int|
                0 <= i < v@.len() ==> results@[i] == Ok::<T, Error>(#[trigger] v@[i]),
        },
{
    let mut rest = results;
    let mut out: Vec<T> = Vec::new();
    loop
        invariant
            out@.len() + rest@.len() == results@.len(),
            forall|i: int| 0 <= i < out@.len() ==> results@[i] == Ok::<T, Error>(#[trigger] out@[i]),
            forall|i: int|
                0 <= i < rest@.len() ==> #[trigger] rest@[i] == results@[out@.len() + i],
            spec_first_err(results@) == spec_first_err(rest@),
        decreases rest@.len(),
    {
        if rest.len() == 0 {
            return Ok(out);
        }
        proof {
            assert(rest@.skip(1) =~= rest@.subrange(1, rest@.len() as int));
        }
        let x = rest.remove(0);
        match x {
            Ok(v) => {
                out.push(v);
            },
            Err(e) => {
                return Err(e);
            },
        }
    }
}

/// The pairing of each account with the balance and pots fetched for
/// it, strictly by request position.
pub open spec fn spec_zip(
    accounts: Seq<Account>,
    balances: Seq<Balance>,
    pots: Seq<Vec<Pot>>,
) -> Seq<AccountData> {
    Seq::new(
        accounts.len(),
        |i: int| AccountData { account: accounts[i], balance: balances[i], pots: pots[i] },
    )
}

/// Pairs each account with the balance and pots fetched for it, by
/// request position: the results of both fan-outs are consumed in the
/// order the accounts were listed.
pub fn zip_account_data(accounts: Vec<Account>, balances: Vec<Balance>, pots: Vec<Vec<Pot>>) -> (r:
    Vec<AccountData>)
    requires
        balances@.len() == accounts@.len(),
        pots@.len() == accounts@.len(),
    ensures
        r@ == spec_zip(accounts@, balances@, pots@),
        r@.len() == accounts@.len(),
        forall|i: int|
            0 <= i < r@.len() ==> (#[trigger] r@[i]).account == accounts@[i] && r@[i].balance
                == balances@[i] && r@[i].pots == pots@[i],
{
    let mut accounts = accounts;
    let mut balances = balances;
    let mut pots = pots;
    let mut out: Vec<AccountData> = Vec::new();
    let ghost orig_accounts = accounts@;
    let ghost orig_balances = balances@;
    let ghost orig_pots = pots@;
    while accounts.len() > 0
        invariant
            accounts@.len() == balances@.len() == pots@.len(),
            out@.len() + accounts@.len() == orig_accounts.len(),
            orig_balances.len() == orig_accounts.len(),
            orig_pots.len() == orig_accounts.len(),
            forall|i: int|
                0 <= i < accounts@.len() ==> #[trigger] accounts@[i] == orig_accounts[out@.len()
                    + i],
            forall|i: int|
                0 <= i < balances@.len() ==> #[trigger] balances@[i] == orig_balances[out@.len()
                    + i],
            forall|i: int|
                0 <= i < pots@.len() ==> #[trigger] pots@[i] == orig_pots[out@.len() + i],
            forall|i: int|
                0 <= i < out@.len() ==> (#[trigger] out@[i]).account == orig_accounts[i]
                    && out@[i].balance == orig_balances[i] && out@[i].pots == orig_pots[i],
        decreases accounts@.len(),
    {
        let account = accounts.remove(0);
        let balance = balances.remove(0);
        let pot_list = pots.remove(0);
        out.push(AccountData { account, balance, pots: pot_list });
    }
    proof {
        assert(out@ =~= spec_zip(orig_accounts, orig_balances, orig_pots));
    }
    out
}

/// The whole `accounts` command once everything is fetched: pair each
/// account with its results by position, then render the report.
pub fn run_accounts(accounts: Vec<Account>, balances: Vec<Balance>, pots: Vec<Vec<Pot>>) -> (r:
    Result<Vec<String>, Error>)
    requires
        balances@.len() == accounts@.len(),
        pots@.len() == accounts@.len(),
        forall|i: int|
            0 <= i < balances@.len() ==> (#[trigger] balances@[i]).spend_today != i64::MIN,
        forall|i: int|
            0 <= i < accounts@.len() ==> (#[trigger] accounts@[i]).account_number@.len()
                <= usize::MAX - 20,
    ensures
        match crate::report::spec_report_error(spec_zip(accounts@, balances@, pots@)) {
            Some(e) => r == Err::<Vec<String>, Error>(e),
            None => r matches Ok(lines) && {
                &&& lines@.len() == crate::report::spec_report_lines(
                    spec_zip(accounts@, balances@, pots@),
                ).len()
                &&& crate::report::report_clean(spec_zip(accounts@, balances@, pots@))
                    ==> forall|i: int|
                    0 <= i < lines@.len() ==> crate::text::strip_styles_spec(
                        #[trigger] lines@[i]@,
                    ) == crate::report::spec_report_lines(spec_zip(accounts@, balances@, pots@))[i]
            },
        },
{
    let data = zip_account_data(accounts, balances, pots);
    render_report(&data)
}

} // verus!
