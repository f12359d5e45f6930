//! The DNS endpoints: domain records, forward and reverse resolution.

use vstd::prelude::*;

use std::collections::HashMap;

use crate::builders::{join_with, lemma_join_with_snoc, values_view};
use crate::error::Error;
use crate::{BASE_API_URL, ParameterBag, ShodanClient, bag_set, bag_set_optional, bool_str,
    int_dec_str, url_parse_ok, url_spec};
use vstd::string::{StringExecFns};

verus! {

/// The records of one domain.
#[derive(Debug, PartialEq)]
pub struct DnsDomainResponse {
    pub domain: String,
    pub tags: Vec<String>,
    pub data: Vec<DnsDomainDataItem>,
    pub subdomains: Vec<String>,
    pub more: bool,
}

/// One DNS record of a domain.
#[derive(Debug, PartialEq)]
pub struct DnsDomainDataItem {
    pub subdomain: String,
    pub item_type: String,
    pub value: String,
    pub last_seen: String,
}

/// The DNS surface an I/O layer offers on top of [`ShodanClient`]'s URL
/// builders.
pub trait Dns {
    fn dns_domain(
        &self,
        domain: String,
        history: Option<bool>,
        dns_type: Option<String>,
        page: Option<i32>,
    ) -> Result<DnsDomainResponse, Error>;

    fn dns_resolve(&self, hostnames: Vec<String>) -> Result<
        HashMap<String, Option<String>>,
        Error,
    >;

    fn dns_reverse(&self, ips: Vec<String>) -> Result<HashMap<String, Vec<String>>, Error>;
}

/// Join strings with commas, nothing around a single one.
fn join_comma(items: &Vec<String>) -> (r: String)
    ensures
        r@ == join_with(values_view(items@), ','),
{
    let mut out = String::new();
    let ghost vs = values_view(items@);
    let mut i: usize = 0;
    proof {
        assert(vs.take(0) =~= Seq::<Seq<char>>::empty());
    }
    while i < items.len()
        invariant
            i <= items@.len(),
            vs == values_view(items@),
            out@ == join_with(vs.take(i as int), ','),
        decreases items@.len() - i,
    {
        if i > 0 {
            crate::encoding::push_char(&mut out, ',');
        }
        out.append(items[i].as_str());
        proof {
            assert(vs.take(i as int + 1) =~= vs.take(i as int).push(vs[i as int]));
            lemma_join_with_snoc(vs.take(i as int), vs[i as int], ',');
            assert(out@ =~= join_with(vs.take(i as int + 1), ','));
        }
        i = i + 1;
    }
    proof {
        assert(vs.take(vs.len() as int) =~= vs);
    }
    out
}

impl ShodanClient {
    /// The URL of a domain-records request: the domain rides in the path,
    /// the optional arguments become parameters only when present.
    pub fn dns_domain_url(
        &self,
        domain: String,
        history: Option<bool>,
        dns_type: Option<String>,
        page: Option<i32>,
    ) -> (r: Result<String, Error>)
        ensures
            match r {
                Ok(u) => url_parse_ok(BASE_API_URL@) && u@ == url_spec(
                    BASE_API_URL@,
                    "/dns/domain/"@ + domain@,
                    self.spec_api_key(),
                    bag_set_optional(
                        bag_set_optional(
                            bag_set_optional(
                                Seq::empty(),
                                "history"@,
                                match history {
                                    Some(h) => Some(bool_str(h)),
                                    None => None,
                                },
                            ),
                            "dns_type"@,
                            match dns_type {
                                Some(t) => Some(t@),
                                None => None,
                            },
                        ),
                        "page"@,
                        match page {
                            Some(p) => Some(int_dec_str(p as int)),
                            None => None,
                        },
                    ),
                ),
                Err(e) => !url_parse_ok(BASE_API_URL@) && e is UrlConstruction,
            },
    {
        let mut parameters = ParameterBag::new();
        parameters.set_optional("history", history);
        parameters.set_optional("dns_type", dns_type);
        parameters.set_optional("page", page);
        let mut path = String::from_str("/dns/domain/");
        path.append(domain.as_str());
        self.build_request_url(path.as_str(), &parameters)
    }

    /// The URL of a forward-resolution request: the hostnames joined with
    /// commas under one parameter.
    pub fn dns_resolve_url(&self, hostnames: Vec<String>) -> (r: Result<String, Error>)
        ensures
            match r {
                Ok(u) => url_parse_ok(BASE_API_URL@) && u@ == url_spec(
                    BASE_API_URL@,
                    "/dns/resolve"@,
                    self.spec_api_key(),
                    bag_set(Seq::empty(), "hostnames"@, join_with(values_view(hostnames@), ',')),
                ),
                Err(e) => !url_parse_ok(BASE_API_URL@) && e is UrlConstruction,
            },
    {
        let joined = join_comma(&hostnames);
        let mut parameters = ParameterBag::new();
        parameters.set("hostnames", joined);
        self.build_request_url("/dns/resolve", &parameters)
    }

    /// The URL of a reverse-resolution request: the addresses joined with
    /// commas under one parameter.
    pub fn dns_reverse_url(&self, ips: Vec<String>) -> (r: Result<String, Error>)
        ensures
            match r {
                Ok(u) => url_parse_ok(BASE_API_URL@) && u@ == url_spec(
                    BASE_API_URL@,
                    "/dns/reverse"@,
                    self.spec_api_key(),
                    bag_set(Seq::empty(), "ips"@, join_with(values_view(ips@), ',')),
                ),
                Err(e) => !url_parse_ok(BASE_API_URL@) && e is UrlConstruction,
            },
    {
        let joined = join_comma(&ips);
        let mut parameters = ParameterBag::new();
        parameters.set("ips", joined);
        self.build_request_url("/dns/reverse", &parameters)
    }
}

} // verus!
