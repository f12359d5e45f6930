//! The account endpoint: the profile of the credential's owner.

use vstd::prelude::*;

use crate::error::Error;
use crate::{BASE_API_URL, ParameterBag, ShodanClient, url_parse_ok, url_spec};

verus! {

/// The account surface an I/O layer offers on top of [`ShodanClient`]'s
/// URL builders.
pub trait Account {
    fn get_account_profile(&self) -> Result<AccountProfileResponse, Error>;
}

/// The account profile the service reports.
#[derive(Debug, PartialEq)]
pub struct AccountProfileResponse {
    pub member: bool,
    pub credits: u32,
    pub display_name: Option<String>,
    pub created: String,
}

impl ShodanClient {
    /// The URL of the account-profile request: no parameters besides the
    /// credential.
    pub fn account_profile_url(&self) -> (r: Result<String, Error>)
        ensures
            match r {
                Ok(u) => url_parse_ok(BASE_API_URL@) && u@ == url_spec(
                    BASE_API_URL@,
                    "/account/profile"@,
                    self.spec_api_key(),
                    Seq::empty(),
                ),
                Err(e) => !url_parse_ok(BASE_API_URL@) && e is UrlConstruction,
            },
    {
        let parameters = ParameterBag::new();
        self.build_request_url("/account/profile", &parameters)
    }
}

} // verus!
