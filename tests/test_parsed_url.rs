use checker::url::URL;

#[test]
fn test_parsed_url() {
    let url_info = URL::parser("https://www.baidu.com:12345/123.txt").unwrap();
    assert_eq!(url_info.protocol, "https");
    assert_eq!(url_info.host, "www.baidu.com");
    assert_eq!(url_info.port, 12345);
    assert_eq!(url_info.path, "/123.txt");
}

#[test]
fn url_http_default_port_and_path() {
    let u = URL::parser("http://example.com").unwrap();
    assert_eq!(u.protocol, "http");
    assert_eq!(u.host, "example.com");
    assert_eq!(u.port, 80);
    assert_eq!(u.path, "/");
}

#[test]
fn url_https_default_port() {
    let u = URL::parser("https://www.baidu.com/").unwrap();
    assert_eq!(u.protocol, "https");
    assert_eq!(u.host, "www.baidu.com");
    assert_eq!(u.port, 443);
    assert_eq!(u.path, "/");
}

#[test]
fn url_without_scheme() {
    let u = URL::parser("a.com:8080/x/y").unwrap();
    assert_eq!(u.protocol, "http");
    assert_eq!(u.host, "a.com");
    assert_eq!(u.port, 8080);
    assert_eq!(u.path, "/x/y");
}

#[test]
fn url_bad_port_is_refused() {
    assert!(URL::parser("https://host:http/").is_none());
    assert!(URL::parser("https://host:/").is_none());
    assert!(URL::parser("https://host:99999999999999999999999/").is_none());
}

#[test]
fn url_signed_port_text() {
    let u = URL::parser("http://h:-5").unwrap();
    assert_eq!(u.port, -5);
    let u = URL::parser("http://h:+7:9/p").unwrap();
    assert_eq!(u.host, "h");
    assert_eq!(u.port, 7);
    assert_eq!(u.path, "/p");
}
