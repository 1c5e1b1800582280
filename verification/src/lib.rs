//! Core of a command-line banking client: the presentation pipeline that
//! turns fetched accounts, balances and pots into an aligned text report.

use vstd::prelude::*;

mod account;
mod amount;
mod cli;
mod config;
mod error;
mod report;
mod style;
mod text;

pub use account::{obfuscate, resolve_type, Account, AccountType, Balance, Pot};
pub use amount::format_amount;
pub use cli::{collect_all, list_transactions, run_accounts, zip_account_data, Args, Command};
pub use config::Config;
pub use error::Error;
pub use report::{render_account, render_report, AccountData};
pub use text::{align, strip_styles, visible_len};
