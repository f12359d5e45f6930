//! The plan-status endpoint: what the credential's plan allows and has left.

use vstd::prelude::*;

use crate::error::Error;
use crate::{BASE_API_URL, ParameterBag, ShodanClient, url_parse_ok, url_spec};

verus! {

/// The plan status the service reports for a credential.
#[derive(Debug, PartialEq)]
pub struct ApiInfoResponse {
    pub scan_credits: u32,
    pub usage_limits: ApiInfoResponseUsageLimits,
    pub plan: String,
    pub https: bool,
    pub unlocked: bool,
    pub query_credits: u32,
    pub monitored_ips: Option<u32>,
    pub unlocked_left: u32,
    pub telnet: bool,
}

/// The plan's limits; a negative value means unlimited.
#[derive(Debug, PartialEq)]
pub struct ApiInfoResponseUsageLimits {
    pub scan_credits: i32,
    pub query_credits: i32,
    pub monitored_ips: i32,
}

impl ShodanClient {
    /// The URL of the plan-status request: no parameters besides the
    /// credential.
    pub fn api_info_url(&self) -> (r: Result<String, Error>)
        ensures
            match r {
                Ok(u) => url_parse_ok(BASE_API_URL@) && u@ == url_spec(
                    BASE_API_URL@,
                    "/api-info"@,
                    self.spec_api_key(),
                    Seq::empty(),
                ),
                Err(e) => !url_parse_ok(BASE_API_URL@) && e is UrlConstruction,
            },
    {
        let parameters = ParameterBag::new();
        self.build_request_url("/api-info", &parameters)
    }
}

} // verus!
