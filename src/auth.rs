//! Shared-secret authentication of conversion requests.

use vstd::prelude::*;

verus! {

/// Whether a request that presented the key `presented` (if any) may go on,
/// where the service was configured with the key `expected` (if any).
pub open spec fn admits(expected: Option<Seq<char>>, presented: Option<Seq<char>>) -> bool {
    match expected {
        None => true,
        Some(key) => presented == Some(key),
    }
}

/// The service's authentication setting, fixed at startup.
pub struct AuthConfig {
    api_key: Option<String>,
}

impl AuthConfig {
    /// The configured key, as characters.
    pub closed spec fn key_view(&self) -> Option<Seq<char>> {
        match self.api_key {
            Some(k) => Some(k@),
            None => None,
        }
    }

    /// A setting that asks for `api_key` where there is one, and for nothing
    /// where there is none.
    pub fn new(api_key: Option<String>) -> (r: AuthConfig)
        ensures
            r.key_view() == match api_key {
                Some(k) => Some(k@),
                None => None,
            },
    {
        AuthConfig { api_key }
    }

    /// Whether a key is asked for.
    pub fn is_enabled(&self) -> (r: bool)
        ensures
            r == self.key_view() is Some,
    {
        self.api_key.is_some()
    }

    /// Whether a request whose `X-Api-Key` header holds `presented` (or that
    /// has no such header, or one that is not text) may go on: always where no
    /// key is configured, else only on an exact match.
    pub fn is_authorized(&self, presented: Option<&str>) -> (r: bool)
        ensures
            r == admits(
                self.key_view(),
                match presented {
                    Some(p) => Some(p@),
                    None => None,
                },
            ),
    {
        match &self.api_key {
            None => true,
            Some(key) => match presented {
                Some(p) => {
                    let given = String::from_str(p);
                    given == *key
                },
                None => false,
            },
        }
    }
}

} // verus!
