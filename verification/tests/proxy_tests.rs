use swan::proxy::{select_transport, ProxyConfig, ProxyType, TransportChoice};

#[test]
fn test_simple_proxy_config() {
    let config = ProxyConfig::Simple("http://proxy.example.com:8080".to_string());

    assert!(config.url().is_some());
    assert_eq!(config.url().unwrap(), "http://proxy.example.com:8080");
    assert!(config.username().is_none());
    assert!(config.password().is_none());
    assert!(!config.is_disabled());
}

#[test]
fn test_full_proxy_config() {
    let config = ProxyConfig::Full {
        proxy_type: Some(ProxyType::Http),
        url: "http://proxy.example.com:8080".to_string(),
        username: Some("user".to_string()),
        password: Some("pass".to_string()),
        no_proxy: None,
    };

    assert!(config.url().is_some());
    assert_eq!(config.url().unwrap(), "http://proxy.example.com:8080");
    assert!(config.username().is_some());
    assert_eq!(config.username().unwrap(), "user");
    assert!(config.password().is_some());
    assert_eq!(config.password().unwrap(), "pass");
    assert!(!config.is_disabled());
}

#[test]
fn test_disabled_proxy_config() {
    let config = ProxyConfig::Disabled(false);

    assert!(config.url().is_none());
    assert!(config.username().is_none());
    assert!(config.password().is_none());
    assert!(config.is_disabled());
}

#[test]
fn test_proxy_type_from_str() {
    assert_eq!(ProxyType::from_str("http"), Some(ProxyType::Http));
    assert_eq!(ProxyType::from_str("HTTP"), Some(ProxyType::Http));
    assert_eq!(ProxyType::from_str("socks5"), Some(ProxyType::Socks5));
    assert_eq!(ProxyType::from_str("SOCKS5"), Some(ProxyType::Socks5));
    assert_eq!(ProxyType::from_str("ftp"), None);
}

#[test]
fn test_proxy_type_as_str() {
    assert_eq!(ProxyType::Http.as_str(), "http");
    assert_eq!(ProxyType::Socks5.as_str(), "socks5");
}

#[test]
fn test_infer_proxy_type() {
    let http = ProxyConfig::Simple("http://p.example.com:1".to_string());
    assert_eq!(http.infer_proxy_type(), Some(ProxyType::Http));

    let https = ProxyConfig::Simple("https://p.example.com:1".to_string());
    assert_eq!(https.infer_proxy_type(), Some(ProxyType::Http));

    let socks = ProxyConfig::Simple("socks5://p.example.com:1".to_string());
    assert_eq!(socks.infer_proxy_type(), Some(ProxyType::Socks5));

    let unknown = ProxyConfig::Simple("p.example.com:1".to_string());
    assert_eq!(unknown.infer_proxy_type(), None);

    // a full configuration with no recognizable prefix falls back to HTTP
    let full = ProxyConfig::Full {
        proxy_type: None,
        url: "p.example.com:1".to_string(),
        username: None,
        password: None,
        no_proxy: None,
    };
    assert_eq!(full.infer_proxy_type(), Some(ProxyType::Http));

    // an explicit type wins over the prefix
    let explicit = ProxyConfig::Full {
        proxy_type: Some(ProxyType::Socks5),
        url: "http://p.example.com:1".to_string(),
        username: None,
        password: None,
        no_proxy: None,
    };
    assert_eq!(explicit.infer_proxy_type(), Some(ProxyType::Socks5));

    assert_eq!(ProxyConfig::Disabled(false).infer_proxy_type(), None);
}

#[test]
fn test_select_transport() {
    assert_eq!(select_transport(&None), Ok(TransportChoice::ClientDefault));

    assert_eq!(
        select_transport(&Some(ProxyConfig::Disabled(false))),
        Ok(TransportChoice::NoProxy)
    );

    let simple = ProxyConfig::Simple("socks5://p.example.com:1".to_string());
    assert_eq!(
        select_transport(&Some(simple)),
        Ok(TransportChoice::Proxied {
            proxy_type: ProxyType::Socks5,
            url: "socks5://p.example.com:1".to_string(),
            username: None,
            password: None,
            no_proxy: None,
        })
    );

    // a bare URL whose scheme cannot be inferred is a configuration error
    let opaque = ProxyConfig::Simple("p.example.com:1".to_string());
    assert!(select_transport(&Some(opaque)).is_err());

    let full = ProxyConfig::Full {
        proxy_type: None,
        url: "http://p.example.com:1".to_string(),
        username: Some("u".to_string()),
        password: Some("p".to_string()),
        no_proxy: Some("internal.example.com".to_string()),
    };
    assert_eq!(
        select_transport(&Some(full)),
        Ok(TransportChoice::Proxied {
            proxy_type: ProxyType::Http,
            url: "http://p.example.com:1".to_string(),
            username: Some("u".to_string()),
            password: Some("p".to_string()),
            no_proxy: Some("internal.example.com".to_string()),
        })
    );
}
