use shodan_client::builders::{SearchQueryBuilder, SslFilterBuilder};

#[test]
fn can_build_query() {
    let query = SearchQueryBuilder::default()
        .query("apache")
        .port("69")
        .port(420)
        .product("Apache")
        .product("Ngnix")
        .build();

    assert!(query.contains("port:69,420"), "query was: {query}");
    assert!(query.contains("product:Apache,Ngnix"), "query was: {query}");
    assert!(query.starts_with("apache"), "query was: {query}");
}

#[test]
fn can_build_without_query() {
    let query = SearchQueryBuilder::default()
        .port("69")
        .port(420)
        .product("Apache")
        .product("Ngnix")
        .build();

    assert!(query.contains("port:69,420"), "query was: {query}");
    assert!(query.contains("product:Apache,Ngnix"), "query was: {query}");
}

#[test]
fn can_build_with_ssl() {
    let query = SearchQueryBuilder::default()
        .port("69")
        .port(420)
        .product("Apache")
        .product("Ngnix")
        .ssl(|ssl_builder| {
            ssl_builder
                .cert_subject_cn("google.com")
                .cert_subject_cn("bing.com")
        })
        .build();

    assert!(query.contains("port:69,420"), "query was: {query}");
    assert!(query.contains("product:Apache,Ngnix"), "query was: {query}");
    assert!(
        query.contains("cert.subject.cn:google.com,bing.com"),
        "query was: {query}"
    );
}

#[test]
fn empty_builder_builds_empty_query() {
    let query = SearchQueryBuilder::default().build();
    assert_eq!(query, "");
}

#[test]
fn query_alone_has_no_separator() {
    let query = SearchQueryBuilder::default().query("nginx").build();
    assert_eq!(query, "nginx");
}

#[test]
fn filters_keep_insertion_order() {
    let query = SearchQueryBuilder::default()
        .query("apache")
        .port(80u32)
        .product("Tomcat")
        .build();
    assert_eq!(query, "apache port:80 product:Tomcat");
}

#[test]
fn ssl_filters_replace_same_name() {
    let query = SearchQueryBuilder::default()
        .ssl(|b| b.cert_subject_cn("one.example"))
        .ssl(|b| b.cert_subject_cn("two.example"))
        .build();
    assert_eq!(query, "cert.subject.cn:two.example");
}

#[test]
fn ssl_builder_hands_out_collected_filters() {
    let filters = SslFilterBuilder::default()
        .cert_subject_cn("a.example")
        .cert_subject_cn("b.example")
        .build();
    assert_eq!(filters.len(), 1);
    assert_eq!(filters[0].0, "cert.subject.cn");
    assert_eq!(filters[0].1, vec!["a.example".to_string(), "b.example".to_string()]);
}
