//! The fetched entities and the two per-account presentation rules:
//! mapping an account type tag to its display category, and masking an
//! account number down to its last four characters.

use vstd::prelude::*;

use crate::error::Error;
use crate::text::no_esc;

verus! {

/// The type tag of an account, as the banking API reports it.
/// `Other` stands for every tag that has no display mapping yet.
#[derive(Clone, Copy, PartialEq, Eq, Structural, Debug)]
pub enum AccountType {
    UkRetail,
    UkRetailJoint,
    UkBusiness,
    Other,
}

/// An account as fetched, read-only for the rest of the run.
pub struct Account {
    pub id: String,
    pub account_number: String,
    pub account_type: AccountType,
}

/// The balance belonging to one account, in minor currency units.
pub struct Balance {
    pub balance: i64,
    pub spend_today: i64,
    pub currency: String,
}

/// A savings pot belonging to an account.
pub struct Pot {
    pub name: String,
    pub balance: i64,
    pub currency: String,
}

/// The display category of an account type tag; tags without a mapping
/// are refused rather than guessed at.
pub open spec fn spec_resolve_type(t: AccountType) -> Result<Seq<char>, Error> {
    match t {
        AccountType::UkRetail => Ok("personal"@),
        AccountType::UkRetailJoint => Ok("joint"@),
        AccountType::UkBusiness => Ok("business"@),
        AccountType::Other => Err(Error::UnsupportedAccountType),
    }
}

/// Maps an account type tag to its display category:
/// `UkRetail` is `"personal"`, `UkRetailJoint` is `"joint"`,
/// `UkBusiness` is `"business"`; any other tag is an
/// `UnsupportedAccountType` error.
pub fn resolve_type(t: AccountType) -> (r: Result<&'static str, Error>)
    ensures
        match r {
            Ok(s) => spec_resolve_type(t) == Ok::<Seq<char>, Error>(s@),
            Err(e) => spec_resolve_type(t) == Err::<Seq<char>, Error>(e),
        },
{
    match t {
        AccountType::UkRetail => Ok("personal"),
        AccountType::UkRetailJoint => Ok("joint"),
        AccountType::UkBusiness => Ok("business"),
        AccountType::Other => Err(Error::UnsupportedAccountType),
    }
}

/// A run of mask characters of the given length.
pub open spec fn spec_stars(n: nat) -> Seq<char>
    decreases n,
{
    if n == 0 {
        Seq::empty()
    } else {
        spec_stars((n - 1) as nat).push('*')
    }
}

/// The masked form of an account number: all but the last four
/// characters replaced by `*`.
pub open spec fn spec_obfuscate(s: Seq<char>) -> Seq<char> {
    spec_stars((s.len() - 4) as nat) + s.skip(s.len() - 4)
}

proof fn lemma_stars(n: nat)
    ensures
        spec_stars(n).len() == n,
        forall|i: int| 0 <= i < n ==> spec_stars(n)[i] == '*',
    decreases n,
{
    if n > 0 {
        lemma_stars((n - 1) as nat);
    }
}

/// Masking keeps the length of an account number.
pub proof fn lemma_obfuscate_len(s: Seq<char>)
    requires
        s.len() >= 4,
    ensures
        spec_obfuscate(s).len() == s.len(),
{
    lemma_stars((s.len() - 4) as nat);
}

/// Masking keeps an account number free of escape characters.
pub proof fn lemma_obfuscate_no_esc(s: Seq<char>)
    requires
        no_esc(s),
        s.len() >= 4,
    ensures
        no_esc(spec_obfuscate(s)),
{
    let k = s.len() - 4;
    lemma_stars(k as nat);
    assert forall|i: int| 0 <= i < spec_obfuscate(s).len() implies spec_obfuscate(s)[i]
        != crate::text::esc() by {
        if i >= k {
            assert(spec_obfuscate(s)[i] == s[i]);
        }
    }
}

/// Masks all but the last four characters of an account number with
/// `*`; a number shorter than four characters is an `InvalidInput`
/// error.
pub fn obfuscate(account_number: &str) -> (r: Result<String, Error>)
    ensures
        account_number@.len() >= 4 ==> match r {
            Ok(s) => s@ == spec_obfuscate(account_number@),
            Err(_) => false,
        },
        account_number@.len() < 4 ==> r == Err::<String, Error>(Error::InvalidInput),
{
    let n = account_number.unicode_len();
    if n < 4 {
        return Err(Error::InvalidInput);
    }
    let k = n - 4;
    let mut out = String::new();
    let mut i: usize = 0;
    while i < k
        invariant
            0 <= i <= k,
            out@ == spec_stars(i as nat),
        decreases k - i,
    {
        out.append("*");
        i += 1;
        proof {
            reveal_strlit("*");
            assert(out@ =~= spec_stars(i as nat));
        }
    }
    let tail = account_number.substring_char(k, n);
    out.append(tail);
    proof {
        assert(out@ =~= spec_obfuscate(account_number@));
    }
    Ok(out)
}

} // verus!
