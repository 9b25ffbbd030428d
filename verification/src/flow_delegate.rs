//! The consent-flow delegate's decisions: which redirect endpoint the
//! authorization flow advertises for a user.
//!
//! Presenting the consent URL and collecting the response code are I/O
//! and live with the flow plumbing outside the library.

use vstd::prelude::*;
use crate::prelude::EasyString;

verus! {

/// Carries the user an interactive consent flow is run for.
#[derive(Debug, Clone)]
pub struct CustomFlowDelegate<USER: EasyString> {
    pub user: Option<USER>,
}

impl<USER: EasyString> CustomFlowDelegate<USER> {
    /// A delegate for the given user; `None` stands for the fallback
    /// account.
    pub fn new(user: Option<USER>) -> (r: Self)
        ensures
            r.user == user,
    {
        CustomFlowDelegate { user }
    }

    /// The redirect endpoint the flow advertises: the local callback
    /// when local redirects are configured, the public one otherwise.
    pub fn redirect_uri(&self, local_auth_redirect: bool) -> (r: Option<&'static str>)
        ensures
            r matches Some(u) && u@ == (if local_auth_redirect {
                "http://localhost:8080/googleapi/auth"@
            } else {
                "https://game-omgeeky.de:7443/googleapi/auth"@
            }),
    {
        if !local_auth_redirect {
            Some("https://game-omgeeky.de:7443/googleapi/auth")
        } else {
            Some("http://localhost:8080/googleapi/auth")
        }
    }
}

} // verus!
