//! The scanning endpoints: the ports and protocols the service crawls.

use vstd::prelude::*;

use crate::error::Error;
use crate::{BASE_API_URL, ParameterBag, ShodanClient, url_parse_ok, url_spec};

verus! {

impl ShodanClient {
    /// The URL of the crawled-ports request: no parameters besides the
    /// credential.
    pub fn scanning_ports_url(&self) -> (r: Result<String, Error>)
        ensures
            match r {
                Ok(u) => url_parse_ok(BASE_API_URL@) && u@ == url_spec(
                    BASE_API_URL@,
                    "/shodan/ports"@,
                    self.spec_api_key(),
                    Seq::empty(),
                ),
                Err(e) => !url_parse_ok(BASE_API_URL@) && e is UrlConstruction,
            },
    {
        let parameters = ParameterBag::new();
        self.build_request_url("/shodan/ports", &parameters)
    }

    /// The URL of the protocols request: no parameters besides the
    /// credential.
    pub fn scanning_protocols_url(&self) -> (r: Result<String, Error>)
        ensures
            match r {
                Ok(u) => url_parse_ok(BASE_API_URL@) && u@ == url_spec(
                    BASE_API_URL@,
                    "/shodan/protocols"@,
                    self.spec_api_key(),
                    Seq::empty(),
                ),
                Err(e) => !url_parse_ok(BASE_API_URL@) && e is UrlConstruction,
            },
    {
        let parameters = ParameterBag::new();
        self.build_request_url("/shodan/protocols", &parameters)
    }
}

} // verus!
