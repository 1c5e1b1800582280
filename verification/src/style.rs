//! Terminal styling, delegated to the `console` crate.
//!
//! Styled text is produced only here. Each wrapper promises one thing:
//! whatever escape codes the terminal settings make `console` emit,
//! stripping the result gives back exactly the text that went in. The
//! layout engine in `text` builds on that alone.

use vstd::prelude::*;

use crate::text::{no_esc, strip_styles_spec};

verus! {

/// Relies on `console::style(..).bold().cyan()`: its rendering is the
/// text either bare or wrapped in `ESC [ ... m` color and attribute
/// sequences followed by an `ESC [ 0 m` reset, which stripping removes.
#[verifier::external_body]
pub fn style_bold_cyan(s: &str) -> (r: String)
    requires
        no_esc(s@),
    ensures
        strip_styles_spec(r@) == s@,
{
    format!("{}", console::style(s).bold().cyan())
}

/// Relies on `console::style(..).bold().magenta()`: its rendering is the
/// text either bare or wrapped in `ESC [ ... m` color and attribute
/// sequences followed by an `ESC [ 0 m` reset, which stripping removes.
#[verifier::external_body]
pub fn style_bold_magenta(s: &str) -> (r: String)
    requires
        no_esc(s@),
    ensures
        strip_styles_spec(r@) == s@,
{
    format!("{}", console::style(s).bold().magenta())
}

} // verus!
