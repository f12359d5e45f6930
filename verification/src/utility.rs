//! The utility endpoints: the caller's own address and headers as the
//! service sees them.

use vstd::prelude::*;

use std::collections::HashMap;

use crate::error::Error;
use crate::{BASE_API_URL, ParameterBag, ShodanClient, url_parse_ok, url_spec};

verus! {

/// The utility surface an I/O layer offers on top of [`ShodanClient`]'s
/// URL builders.
pub trait Utility {
    fn get_my_ip(&self) -> Result<String, Error>;

    fn get_http_headers(&self) -> Result<HashMap<String, String>, Error>;
}

impl ShodanClient {
    /// The URL of the own-address request: no parameters besides the
    /// credential.
    pub fn my_ip_url(&self) -> (r: Result<String, Error>)
        ensures
            match r {
                Ok(u) => url_parse_ok(BASE_API_URL@) && u@ == url_spec(
                    BASE_API_URL@,
                    "/tools/myip"@,
                    self.spec_api_key(),
                    Seq::empty(),
                ),
                Err(e) => !url_parse_ok(BASE_API_URL@) && e is UrlConstruction,
            },
    {
        let parameters = ParameterBag::new();
        self.build_request_url("/tools/myip", &parameters)
    }

    /// The URL of the request-headers request: no parameters besides the
    /// credential.
    pub fn http_headers_url(&self) -> (r: Result<String, Error>)
        ensures
            match r {
                Ok(u) => url_parse_ok(BASE_API_URL@) && u@ == url_spec(
                    BASE_API_URL@,
                    "/tools/httpheaders"@,
                    self.spec_api_key(),
                    Seq::empty(),
                ),
                Err(e) => !url_parse_ok(BASE_API_URL@) && e is UrlConstruction,
            },
    {
        let parameters = ParameterBag::new();
        self.build_request_url("/tools/httpheaders", &parameters)
    }
}

} // verus!
