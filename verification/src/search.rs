//! The host-search endpoints: searching crawled hosts and inspecting the
//! query language.
//!
//! The records here mirror the service's JSON shapes field for field. The
//! host and full search-result records carry geographic coordinates, which
//! this crate does not model; an I/O layer decodes those replies into its
//! own shapes.

use vstd::prelude::*;

use std::collections::HashMap;

use crate::error::Error;
use crate::{BASE_API_URL, ParameterBag, ShodanClient, bag_set, bag_set_optional, bool_str,
    int_dec_str, url_parse_ok, url_spec};
use vstd::string::StringExecFns;

verus! {

/// The total of a count request, with its facet breakdowns.
#[derive(Debug, PartialEq)]
pub struct CountResponse {
    pub total: u32,
    pub facets: Option<HashMap<String, Vec<Facet>>>,
}

/// How the service read a search query.
#[derive(Debug, PartialEq)]
pub struct TokenResponse {
    pub attributes: HashMap<String, Vec<i32>>,
    pub errors: Vec<String>,
    pub string: String,
    pub filters: Vec<String>,
}

/// One value of a facet breakdown with its count.
#[derive(Debug, PartialEq)]
pub struct Facet {
    pub count: u32,
    pub value: String,
}

/// The cloud a crawled service runs in.
#[derive(Debug, PartialEq)]
pub struct Cloud {
    pub region: Option<String>,
    pub service: Option<String>,
    pub provider: String,
}

/// The HTTP portion of a crawled service.
#[derive(Debug, PartialEq)]
pub struct Http {
    pub status: i64,
    pub robots_hash: Option<i64>,
    pub redirects: Vec<Redirect>,
    pub securitytxt: Option<String>,
    pub title: Option<String>,
    pub sitemap_hash: Option<i64>,
    pub robots: Option<String>,
    pub server: Option<String>,
    pub headers_hash: i64,
    pub host: String,
    pub html: String,
    pub location: String,
    pub components: Option<HashMap<String, Component>>,
    pub html_hash: i64,
    pub sitemap: Option<String>,
    pub securitytxt_hash: Option<i64>,
    pub favicon: Option<Favicon>,
    pub waf: Option<String>,
}

/// The categories of one detected web component.
#[derive(Debug, PartialEq)]
pub struct Component {
    pub categories: Vec<String>,
}

/// A site's favicon as crawled.
#[derive(Debug, PartialEq)]
pub struct Favicon {
    pub hash: i64,
    pub data: String,
    pub location: String,
}

/// One redirect followed while crawling.
#[derive(Debug, PartialEq)]
pub struct Redirect {
    pub host: String,
    pub data: String,
    pub location: String,
    pub html: Option<String>,
}

/// The MySQL portion of a crawled service.
#[derive(Debug, PartialEq)]
pub struct Mysql {
    pub authentication_plugin: String,
    pub capabilities: i64,
    pub server_status: String,
    pub thread_id: i64,
    pub version: String,
    pub extended_server_capabilities: i64,
    pub protocol_version: i64,
    pub server_language: i64,
}

/// The crawler's own notes on one observation.
#[derive(Debug, PartialEq)]
pub struct Shodan {
    pub region: String,
    pub ptr: Option<bool>,
    pub module: String,
    pub id: String,
    pub options: HashMap<String, String>,
    pub crawler: String,
}

/// One X.509 extension of a served certificate.
#[derive(Debug, PartialEq)]
pub struct Extension {
    pub critical: Option<bool>,
    pub data: String,
    pub name: String,
}

/// The digests of a served certificate.
#[derive(Debug, PartialEq)]
pub struct Fingerprint {
    pub sha256: String,
    pub sha1: String,
}

/// A certificate's subject or issuer name.
#[derive(Debug, PartialEq)]
pub struct Issuer {
    pub c: Option<String>,
    pub cn: Option<String>,
    pub o: Option<String>,
    pub l: Option<String>,
    pub st: Option<String>,
    pub ou: Option<String>,
    pub email_address: Option<String>,
}

/// A certificate's public key.
#[derive(Debug, PartialEq)]
pub struct Pubkey {
    pub pubkey_type: String,
    pub bits: i64,
}

/// The cipher a TLS handshake settled on.
#[derive(Debug, PartialEq)]
pub struct Cipher {
    pub version: String,
    pub bits: i64,
    pub name: String,
}

/// The Diffie-Hellman parameters a TLS service offered.
#[derive(Debug, PartialEq)]
pub struct Dhparams {
    pub prime: String,
    pub public_key: String,
    pub bits: i64,
    pub generator: i64,
    pub fingerprint: Option<String>,
}

/// The OCSP response served during the handshake.
#[derive(Debug, PartialEq)]
pub struct Ocsp {
    pub version: Option<String>,
    pub response_status: Option<String>,
    pub responder_id: Option<String>,
    pub cert_status: Option<String>,
    pub produced_at: Option<String>,
    pub signature_algorithm: Option<String>,
    pub next_update: Option<String>,
    pub this_update: Option<String>,
    pub certificate_id: Option<CertificateId>,
}

/// The identifier of the certificate an OCSP response speaks of.
#[derive(Debug, PartialEq)]
pub struct CertificateId {
    pub hash_algorithm: String,
    pub issuer_name_hash: String,
    pub issuer_name_key: String,
    pub serial_number: String,
}

/// One TLS extension a service offered.
#[derive(Debug, PartialEq)]
pub struct Tlsext {
    pub id: i64,
    pub name: String,
}

/// Whether a served certificate is trusted, and by whom.
#[derive(Debug, PartialEq)]
pub struct Trust {
    pub revoked: bool,
    pub browser: Option<Browser>,
}

/// Which browser vendors trust a served certificate.
#[derive(Debug, PartialEq)]
pub struct Browser {
    pub mozilla: bool,
    pub apple: bool,
    pub microsoft: bool,
}

impl ShodanClient {
    /// The URL of a single-host request: the address rides in the path, the
    /// optional arguments become parameters only when present.
    pub fn host_ip_url(&self, ip: String, history: Option<bool>, minifi: Option<bool>) -> (r:
        Result<String, Error>)
        ensures
            match r {
                Ok(u) => url_parse_ok(BASE_API_URL@) && u@ == url_spec(
                    BASE_API_URL@,
                    "/shodan/host/"@ + ip@,
                    self.spec_api_key(),
                    bag_set_optional(
                        bag_set_optional(
                            Seq::empty(),
                            "history"@,
                            match history {
                                Some(h) => Some(bool_str(h)),
                                None => None,
                            },
                        ),
                        "minifi"@,
                        match minifi {
                            Some(m) => Some(bool_str(m)),
                            None => None,
                        },
                    ),
                ),
                Err(e) => !url_parse_ok(BASE_API_URL@) && e is UrlConstruction,
            },
    {
        let mut parameters = ParameterBag::new();
        parameters.set_optional("history", history);
        parameters.set_optional("minifi", minifi);
        let mut path = String::from_str("/shodan/host/");
        path.append(ip.as_str());
        self.build_request_url(path.as_str(), &parameters)
    }

    /// The URL of a search request: the query always, each optional
    /// argument only when present.
    pub fn host_search_url(
        &self,
        query: String,
        facets: Option<&str>,
        page: Option<i32>,
        minifi: Option<bool>,
    ) -> (r: Result<String, Error>)
        ensures
            match r {
                Ok(u) => url_parse_ok(BASE_API_URL@) && u@ == url_spec(
                    BASE_API_URL@,
                    "/shodan/host/search"@,
                    self.spec_api_key(),
                    bag_set_optional(
                        bag_set_optional(
                            bag_set_optional(
                                bag_set(Seq::empty(), "query"@, query@),
                                "facets"@,
                                match facets {
                                    Some(f) => Some(f@),
                                    None => None,
                                },
                            ),
                            "page"@,
                            match page {
                                Some(p) => Some(int_dec_str(p as int)),
                                None => None,
                            },
                        ),
                        "minifi"@,
                        match minifi {
                            Some(m) => Some(bool_str(m)),
                            None => None,
                        },
                    ),
                ),
                Err(e) => !url_parse_ok(BASE_API_URL@) && e is UrlConstruction,
            },
    {
        let mut parameters = ParameterBag::new();
        parameters.set("query", query);
        parameters.set_optional("facets", facets);
        parameters.set_optional("page", page);
        parameters.set_optional("minifi", minifi);
        self.build_request_url("/shodan/host/search", &parameters)
    }

    /// The URL of a count request: the query always, the facets only when
    /// given.
    pub fn host_count_url(&self, query: String, facets: Option<&str>) -> (r: Result<String, Error>)
        ensures
            match r {
                Ok(u) => url_parse_ok(BASE_API_URL@) && u@ == url_spec(
                    BASE_API_URL@,
                    "/shodan/host/count"@,
                    self.spec_api_key(),
                    bag_set_optional(
                        bag_set(Seq::empty(), "query"@, query@),
                        "facets"@,
                        match facets {
                            Some(f) => Some(f@),
                            None => None,
                        },
                    ),
                ),
                Err(e) => !url_parse_ok(BASE_API_URL@) && e is UrlConstruction,
            },
    {
        let mut parameters = ParameterBag::new();
        parameters.set("query", query);
        parameters.set_optional("facets", facets);
        self.build_request_url("/shodan/host/count", &parameters)
    }

    /// The URL of the facet catalog: no parameters besides the credential.
    pub fn host_facets_url(&self) -> (r: Result<String, Error>)
        ensures
            match r {
                Ok(u) => url_parse_ok(BASE_API_URL@) && u@ == url_spec(
                    BASE_API_URL@,
                    "/shodan/host/search/facets"@,
                    self.spec_api_key(),
                    Seq::empty(),
                ),
                Err(e) => !url_parse_ok(BASE_API_URL@) && e is UrlConstruction,
            },
    {
        let parameters = ParameterBag::new();
        self.build_request_url("/shodan/host/search/facets", &parameters)
    }

    /// The URL of the filter catalog: no parameters besides the credential.
    pub fn host_filters_url(&self) -> (r: Result<String, Error>)
        ensures
            match r {
                Ok(u) => url_parse_ok(BASE_API_URL@) && u@ == url_spec(
                    BASE_API_URL@,
                    "/shodan/host/search/filters"@,
                    self.spec_api_key(),
                    Seq::empty(),
                ),
                Err(e) => !url_parse_ok(BASE_API_URL@) && e is UrlConstruction,
            },
    {
        let parameters = ParameterBag::new();
        self.build_request_url("/shodan/host/search/filters", &parameters)
    }

    /// The URL of a query-analysis request.
    pub fn host_tokens_url(&self, query: String) -> (r: Result<String, Error>)
        ensures
            match r {
                Ok(u) => url_parse_ok(BASE_API_URL@) && u@ == url_spec(
                    BASE_API_URL@,
                    "/shodan/host/search/tokens"@,
                    self.spec_api_key(),
                    bag_set(Seq::empty(), "query"@, query@),
                ),
                Err(e) => !url_parse_ok(BASE_API_URL@) && e is UrlConstruction,
            },
    {
        let mut parameters = ParameterBag::new();
        parameters.set("query", query);
        self.build_request_url("/shodan/host/search/tokens", &parameters)
    }
}

} // verus!
