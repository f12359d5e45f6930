//! The directory endpoints: the catalog of saved search queries.

use vstd::prelude::*;

use crate::error::Error;
use crate::response::ShodanClientResponse;
use crate::{BASE_API_URL, ParameterBag, ShodanClient, bag_set, bag_set_optional, int_dec_str,
    url_parse_ok, url_spec};

verus! {

/// The directory surface an I/O layer offers on top of [`ShodanClient`]'s
/// URL builders.
pub trait Directory {
    fn directory_query(
        &self,
        page: Option<i32>,
        sort: Option<String>,
        order: Option<String>,
    ) -> Result<ShodanClientResponse<DirectoryQueryResponse>, Error>;

    fn directory_query_search(&self, query: String, page: Option<i32>) -> Result<
        ShodanClientResponse<DirectoryQueryResponse>,
        Error,
    >;

    fn directory_query_tags(&self, size: Option<i32>) -> Result<
        ShodanClientResponse<DirectoryQueryTagsResponse>,
        Error,
    >;
}

/// One page of the saved-query directory.
#[derive(Debug, PartialEq)]
pub struct DirectoryQueryResponse {
    pub matches: Vec<DirectoryQueryResponseMatch>,
    pub total: u32,
}

/// One saved query of the directory.
#[derive(Debug, PartialEq)]
pub struct DirectoryQueryResponseMatch {
    pub votes: u32,
    pub description: String,
    pub tags: Vec<String>,
    pub timestamp: String,
    pub title: String,
    pub query: String,
}

/// One page of the directory's tag listing.
#[derive(Debug, PartialEq)]
pub struct DirectoryQueryTagsResponse {
    pub matches: Vec<DirectoryQueryTagsResponseMatch>,
    pub total: u32,
}

/// One tag of the directory with its use count.
#[derive(Debug, PartialEq)]
pub struct DirectoryQueryTagsResponseMatch {
    pub count: u32,
    pub value: String,
}

impl ShodanClient {
    /// The URL of a directory listing request: each optional argument
    /// becomes a parameter only when present.
    pub fn directory_query_url(
        &self,
        page: Option<i32>,
        sort: Option<String>,
        order: Option<String>,
    ) -> (r: Result<String, Error>)
        ensures
            match r {
                Ok(u) => url_parse_ok(BASE_API_URL@) && u@ == url_spec(
                    BASE_API_URL@,
                    "/shodan/query"@,
                    self.spec_api_key(),
                    bag_set_optional(
                        bag_set_optional(
                            bag_set_optional(
                                Seq::empty(),
                                "page"@,
                                match page {
                                    Some(p) => Some(int_dec_str(p as int)),
                                    None => None,
                                },
                            ),
                            "sort"@,
                            match sort {
                                Some(s) => Some(s@),
                                None => None,
                            },
                        ),
                        "order"@,
                        match order {
                            Some(o) => Some(o@),
                            None => None,
                        },
                    ),
                ),
                Err(e) => !url_parse_ok(BASE_API_URL@) && e is UrlConstruction,
            },
    {
        let mut parameters = ParameterBag::new();
        parameters.set_optional("page", page);
        parameters.set_optional("sort", sort);
        parameters.set_optional("order", order);
        self.build_request_url("/shodan/query", &parameters)
    }

    /// The URL of a directory search request.
    pub fn directory_query_search_url(&self, query: String, page: Option<i32>) -> (r: Result<
        String,
        Error,
    >)
        ensures
            match r {
                Ok(u) => url_parse_ok(BASE_API_URL@) && u@ == url_spec(
                    BASE_API_URL@,
                    "/shodan/query/search"@,
                    self.spec_api_key(),
                    bag_set_optional(
                        bag_set(Seq::empty(), "query"@, query@),
                        "page"@,
                        match page {
                            Some(p) => Some(int_dec_str(p as int)),
                            None => None,
                        },
                    ),
                ),
                Err(e) => !url_parse_ok(BASE_API_URL@) && e is UrlConstruction,
            },
    {
        let mut parameters = ParameterBag::new();
        parameters.set("query", query);
        parameters.set_optional("page", page);
        self.build_request_url("/shodan/query/search", &parameters)
    }

    /// The URL of the directory tag listing: the page size becomes a
    /// parameter only when given.
    pub fn directory_query_tags_url(&self, size: Option<i32>) -> (r: Result<String, Error>)
        ensures
            match r {
                Ok(u) => url_parse_ok(BASE_API_URL@) && u@ == url_spec(
                    BASE_API_URL@,
                    "/shodan/query/tags"@,
                    self.spec_api_key(),
                    bag_set_optional(
                        Seq::empty(),
                        "size"@,
                        match size {
                            Some(s) => Some(int_dec_str(s as int)),
                            None => None,
                        },
                    ),
                ),
                Err(e) => !url_parse_ok(BASE_API_URL@) && e is UrlConstruction,
            },
    {
        let mut parameters = ParameterBag::new();
        parameters.set_optional("size", size);
        self.build_request_url("/shodan/query/tags", &parameters)
    }
}

} // verus!
