//! The configuration seen by the client: a key-value provider reduced
//! to the one value the client reads, the access token. Loading and
//! merging of configuration sources happens outside; this type only
//! holds the outcome.

use vstd::prelude::*;

use crate::error::Error;

verus! {

/// The configuration values the client works with.
pub struct Config {
    token: Option<String>,
}

impl Config {
    /// The stored access token, if one is set.
    pub closed spec fn spec_token(&self) -> Option<Seq<char>> {
        match self.token {
            Some(ref t) => Some(t@),
            None => None,
        }
    }

    /// A configuration with no token set.
    pub fn new() -> (r: Config)
        ensures
            r.spec_token() is None,
    {
        Config { token: None }
    }

    /// Stores the access token, replacing any earlier one.
    pub fn set_token(&mut self, token: String)
        ensures
            final(self).spec_token() == Some(token@),
    {
        self.token = Some(token);
    }

    /// Hands out the stored access token; a missing token is a
    /// configuration error, surfaced before any API call is attempted.
    pub fn get_token(&self) -> (r: Result<String, Error>)
        ensures
            match self.spec_token() {
                Some(t) => r matches Ok(s) && s@ == t,
                None => r == Err::<String, Error>(Error::ConfigError),
            },
    {
        match &self.token {
            Some(t) => Ok(t.clone()),
            None => Err(Error::ConfigError),
        }
    }
}

} // verus!
