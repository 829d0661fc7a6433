use snout::api::{cnb_headers, github_headers, proxy_override, proxy_setting, proxy_url, ApiError, HeaderKind};

#[test]
fn client_new_accepts_supported_proxy_types() {
    for proxy_type in ["http", "https", "socks5"] {
        assert!(proxy_setting(true, proxy_type, "127.0.0.1:1080").is_ok(), "proxy_type={proxy_type}");
    }
}

#[test]
fn client_new_rejects_unknown_proxy_type() {
    assert_eq!(proxy_setting(true, "nope", "127.0.0.1:1080"), Err(ApiError::UnknownProxy));
}

#[test]
fn download_client_accepts_supported_proxy_types() {
    for proxy_type in ["http", "https", "socks5"] {
        assert!(
            proxy_setting(true, proxy_type, "127.0.0.1:1080").is_ok(),
            "proxy_type={proxy_type}"
        );
    }
}

#[test]
fn download_client_rejects_unknown_proxy_type() {
    assert!(proxy_setting(true, "bad", "127.0.0.1:1080").is_err());
}

#[test]
fn proxy_urls_follow_the_type() {
    assert_eq!(proxy_url("https", "h:1").unwrap(), "http://h:1");
    assert_eq!(proxy_url("socks5", "h:1").unwrap(), "socks5://h:1");
    assert_eq!(proxy_setting(false, "nope", "h:1"), Ok(None));
}

#[test]
fn github_headers_omit_auth_when_token_missing() {
    let headers = github_headers("");
    assert!(!headers.iter().any(|(k, _)| *k == HeaderKind::Authorization));
}

#[test]
fn github_headers_include_bearer_token() {
    let headers = github_headers("secret");
    assert_eq!(headers, vec![(HeaderKind::Authorization, "Bearer secret".to_string())]);
}

#[test]
fn cnb_headers_always_include_accept_header() {
    let headers = cnb_headers("");
    assert_eq!(
        headers,
        vec![(HeaderKind::Accept, "application/vnd.cnb.web+json".to_string())]
    );
}

#[test]
fn cnb_headers_include_optional_bearer_token() {
    let headers = cnb_headers("token");
    assert_eq!(headers[1], (HeaderKind::Authorization, "Bearer token".to_string()));
}

#[test]
fn proxy_argument_sets_type_and_address() {
    let o = proxy_override("http://127.0.0.1:8080");
    assert_eq!(o.proxy_type.as_deref(), Some("http"));
    assert_eq!(o.address, "127.0.0.1:8080");
    let o = proxy_override("socks5://socks5://h:1");
    assert_eq!(o.proxy_type.as_deref(), Some("socks5"));
    assert_eq!(o.address, "h:1");
    let o = proxy_override("h:2");
    assert_eq!(o.proxy_type, None);
    assert_eq!(o.address, "h:2");
}
