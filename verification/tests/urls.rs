use shodan_client::{ParameterBag, ShodanClient, build_url};

#[test]
fn scenario_search_url_carries_key_and_parameters() {
    let mut bag = ParameterBag::new();
    bag.set("query", "apache");
    bag.set("page", "2");
    let url = build_url(
        "https://api.example.test",
        "/shodan/host/search",
        "abc123",
        &bag,
    )
    .unwrap();

    assert!(url.starts_with("https://api.example.test/shodan/host/search?"));
    assert!(url.contains("key=abc123"), "url was: {url}");
    assert!(url.contains("query=apache"), "url was: {url}");
    assert!(url.contains("page=2"), "url was: {url}");
}

#[test]
fn api_key_is_always_the_first_parameter() {
    let bag = ParameterBag::new();
    let url = build_url("https://api.example.test", "/api-info", "s3cr3t", &bag).unwrap();
    assert_eq!(url, "https://api.example.test/api-info?key=s3cr3t");
}

#[test]
fn absent_optional_parameter_never_reaches_the_url() {
    let mut bag = ParameterBag::new();
    bag.set_optional("history", None::<bool>);
    bag.set_optional("minifi", Some(true));
    let url = build_url("https://api.example.test", "/shodan/host/8.8.8.8", "k", &bag).unwrap();
    assert!(!url.contains("history"), "url was: {url}");
    assert!(url.contains("minifi=true"), "url was: {url}");
}

#[test]
fn parameters_are_percent_encoded() {
    let mut bag = ParameterBag::new();
    bag.set("query", "port:22 city:\"San Diego\"");
    bag.set("plus&eq", "a=b&c");
    let url = build_url("https://api.example.test", "/x", "k", &bag).unwrap();
    assert!(
        url.contains("query=port%3A22+city%3A%22San+Diego%22"),
        "url was: {url}"
    );
    assert!(url.contains("plus%26eq=a%3Db%26c"), "url was: {url}");
}

#[test]
fn non_ascii_values_encode_their_utf8_bytes() {
    let mut bag = ParameterBag::new();
    bag.set("city", "Z\u{fc}rich");
    let url = build_url("https://api.example.test", "/x", "k", &bag).unwrap();
    assert!(url.contains("city=Z%C3%BCrich"), "url was: {url}");
}

#[test]
fn malformed_base_host_is_a_construction_error() {
    let bag = ParameterBag::new();
    let result = build_url("not a url at all", "/x", "k", &bag);
    assert!(matches!(
        result,
        Err(shodan_client::error::Error::UrlConstruction(_))
    ));
}

#[test]
fn setting_a_key_twice_keeps_the_last_value() {
    let mut bag = ParameterBag::new();
    bag.set("page", "1");
    bag.set("page", "2");
    assert_eq!(bag.pairs().len(), 1);
    assert_eq!(bag.pairs()[0].1, "2");
    let url = build_url("https://api.example.test", "/x", "k", &bag).unwrap();
    assert!(url.contains("page=2"), "url was: {url}");
    assert!(!url.contains("page=1"), "url was: {url}");
}

#[test]
fn user_parameter_cannot_shadow_the_credential() {
    let mut bag = ParameterBag::new();
    bag.set("key", "forged");
    let url = build_url("https://api.example.test", "/x", "genuine", &bag).unwrap();
    // The credential is still the first pair; the user's pair rides behind it.
    assert_eq!(url, "https://api.example.test/x?key=genuine&key=forged");
}

#[test]
fn path_without_leading_slash_gets_one() {
    let bag = ParameterBag::new();
    let url = build_url("https://api.example.test", "tools/myip", "k", &bag).unwrap();
    assert_eq!(url, "https://api.example.test/tools/myip?key=k");
}

#[test]
fn client_builds_against_the_fixed_host() {
    let client = ShodanClient::new(String::from("abc123"));
    let bag = ParameterBag::new();
    let url = client.build_request_url("/account/profile", &bag).unwrap();
    assert_eq!(url, "https://api.shodan.io/account/profile?key=abc123");
}

#[test]
fn host_search_url_is_exact() {
    let client = ShodanClient::new(String::from("abc123"));
    let url = client
        .host_search_url(String::from("apache"), None, Some(2), None)
        .unwrap();
    assert_eq!(
        url,
        "https://api.shodan.io/shodan/host/search?key=abc123&query=apache&page=2"
    );
}

#[test]
fn host_ip_url_interpolates_the_address() {
    let client = ShodanClient::new(String::from("k"));
    let url = client
        .host_ip_url(String::from("8.8.8.8"), Some(false), None)
        .unwrap();
    assert_eq!(
        url,
        "https://api.shodan.io/shodan/host/8.8.8.8?key=k&history=false"
    );
}

#[test]
fn dns_resolve_url_joins_hostnames() {
    let client = ShodanClient::new(String::from("k"));
    let url = client
        .dns_resolve_url(vec![
            String::from("google.com"),
            String::from("facebook.com"),
        ])
        .unwrap();
    assert_eq!(
        url,
        "https://api.shodan.io/dns/resolve?key=k&hostnames=google.com%2Cfacebook.com"
    );
}

#[test]
fn dns_domain_url_carries_only_present_options() {
    let client = ShodanClient::new(String::from("k"));
    let url = client
        .dns_domain_url(String::from("google.com"), None, None, Some(-3))
        .unwrap();
    assert_eq!(url, "https://api.shodan.io/dns/domain/google.com?key=k&page=-3");
}

#[test]
fn directory_and_utility_urls_are_exact() {
    let client = ShodanClient::new(String::from("k"));
    assert_eq!(
        client.directory_query_url(Some(1), None, Some(String::from("asc"))).unwrap(),
        "https://api.shodan.io/shodan/query?key=k&page=1&order=asc"
    );
    assert_eq!(
        client.directory_query_search_url(String::from("webcam"), None).unwrap(),
        "https://api.shodan.io/shodan/query/search?key=k&query=webcam"
    );
    assert_eq!(
        client.directory_query_tags_url(Some(30)).unwrap(),
        "https://api.shodan.io/shodan/query/tags?key=k&size=30"
    );
    assert_eq!(
        client.directory_query_tags_url(None).unwrap(),
        "https://api.shodan.io/shodan/query/tags?key=k"
    );
    assert_eq!(
        client.my_ip_url().unwrap(),
        "https://api.shodan.io/tools/myip?key=k"
    );
    assert_eq!(
        client.http_headers_url().unwrap(),
        "https://api.shodan.io/tools/httpheaders?key=k"
    );
    assert_eq!(
        client.scanning_ports_url().unwrap(),
        "https://api.shodan.io/shodan/ports?key=k"
    );
    assert_eq!(
        client.scanning_protocols_url().unwrap(),
        "https://api.shodan.io/shodan/protocols?key=k"
    );
    assert_eq!(
        client.host_count_url(String::from("google"), Some("os,country")).unwrap(),
        "https://api.shodan.io/shodan/host/count?key=k&query=google&facets=os%2Ccountry"
    );
    assert_eq!(
        client.host_facets_url().unwrap(),
        "https://api.shodan.io/shodan/host/search/facets?key=k"
    );
    assert_eq!(
        client.host_filters_url().unwrap(),
        "https://api.shodan.io/shodan/host/search/filters?key=k"
    );
    assert_eq!(
        client.host_tokens_url(String::from("Raspbian port:22")).unwrap(),
        "https://api.shodan.io/shodan/host/search/tokens?key=k&query=Raspbian+port%3A22"
    );
    assert_eq!(
        client.api_info_url().unwrap(),
        "https://api.shodan.io/api-info?key=k"
    );
    assert_eq!(
        client.account_profile_url().unwrap(),
        "https://api.shodan.io/account/profile?key=k"
    );
}

#[test]
fn encode_component_runtime_matches_form_encoding() {
    assert_eq!(shodan_client::encoding::encode_component("plain-Text_0.9*"), "plain-Text_0.9*");
    assert_eq!(shodan_client::encoding::encode_component("a b"), "a+b");
    assert_eq!(shodan_client::encoding::encode_component("%"), "%25");
    assert_eq!(shodan_client::encoding::encode_component(""), "");
}

#[test]
fn encode_path_keeps_slashes() {
    assert_eq!(
        shodan_client::encoding::encode_path("/dns/domain/google.com"),
        "/dns/domain/google.com"
    );
    assert_eq!(shodan_client::encoding::encode_path("/a b/c"), "/a%20b/c");
}
