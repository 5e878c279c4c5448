use prest_host::host::{check_port, https_authority, https_redirect, panic_body, redirect_target, request_body_limit};
use prest_host::proxy::{
    add_app_decision, choose_upstream, registration_accepted, upstream_addr, AddAppDecision,
    AppRegistry, Upstream,
};
use prest_host::text::{contains, decimal_string, ends_with, parse_unsigned, starts_with, str_eq};

#[test]
fn prefix_suffix_contains() {
    assert!(starts_with("/admin/db", "/admin/"));
    assert!(!starts_with("/adm", "/admin/"));
    assert!(ends_with("site.webmanifest", ".webmanifest"));
    assert!(!ends_with("a", "ab"));
    assert!(contains("[workspace]\nmembers", "[workspace]"));
    assert!(contains("abc", ""));
    assert!(!contains("abc", "abd"));
    assert!(str_eq("é", "é"));
    assert!(!str_eq("a", "ab"));
}

#[test]
fn decimal_round_trip() {
    for n in [0u64, 7, 10, 443, 65535, u64::MAX] {
        let s = decimal_string(n);
        assert_eq!(s, n.to_string());
        assert_eq!(parse_unsigned(&s, u64::MAX), Some(n));
    }
}

#[test]
fn parse_unsigned_follows_std() {
    assert_eq!(parse_unsigned("+12", 100), Some(12));
    assert_eq!(parse_unsigned("", 100), None);
    assert_eq!(parse_unsigned("+", 100), None);
    assert_eq!(parse_unsigned("-1", 100), None);
    assert_eq!(parse_unsigned("1 ", 100), None);
    assert_eq!(parse_unsigned("101", 100), None);
    assert_eq!(parse_unsigned("100", 100), Some(100));
    assert_eq!(parse_unsigned("18446744073709551616", u64::MAX), None);
    assert_eq!(parse_unsigned("007", 100), Some(7));
}

#[test]
fn body_limit_and_port_defaults() {
    assert_eq!(request_body_limit(None), 10_000_000);
    assert_eq!(request_body_limit(Some("2048")), 2048);
    assert_eq!(request_body_limit(Some("lots")), 10_000_000);
    assert_eq!(check_port(None), 80);
    assert_eq!(check_port(Some("8080")), 8080);
    assert_eq!(check_port(Some("70000")), 80);
    assert_eq!(check_port(Some("x")), 80);
}

#[test]
fn https_redirect_authority() {
    assert_eq!(https_authority("example.com:80", Some("80"), 443), "example.com:443");
    assert_eq!(https_authority("example.com", None, 443), "example.com:443");
    assert_eq!(redirect_target("https://x.io", Some("/a?b=1")), "https://x.io/a?b=1");
    assert_eq!(redirect_target("https://x.io", None), "https://x.io/");
}

#[test]
fn panic_bodies() {
    assert_eq!(panic_body("boom", true), "Panic: boom");
    assert_eq!(panic_body("boom", false), "Internal error");
}

#[test]
fn registry_read_after_write() {
    let mut apps = AppRegistry::new();
    assert_eq!(apps.get("a.io"), None);
    apps.insert("a.io".to_string(), 3000);
    apps.insert("b.io".to_string(), 3001);
    apps.insert("a.io".to_string(), 4000);
    assert_eq!(apps.get("a.io"), Some(4000));
    assert_eq!(apps.get("b.io"), Some(3001));
    assert_eq!(apps.get("c.io"), None);
}

#[test]
fn proxy_registration_decisions() {
    let path = "/prest-proxy-add-app";
    assert!(matches!(add_app_decision("/", Some("pw"), "pw", Some("1"), Some("d"), Some("n"), false), AddAppDecision::NotForUs));
    assert!(matches!(add_app_decision(path, None, "pw", Some("1"), Some("d"), Some("n"), false), AddAppDecision::NotForUs));
    assert!(matches!(add_app_decision(path, Some("bad"), "pw", Some("1"), Some("d"), Some("n"), false), AddAppDecision::Reject("no host header")));
    assert!(matches!(add_app_decision(path, Some("pw"), "pw", Some("x"), Some("d"), Some("n"), false), AddAppDecision::Reject("should include port")));
    assert!(matches!(add_app_decision(path, Some("pw"), "pw", None, Some("d"), Some("n"), false), AddAppDecision::Reject("should include port")));
    assert!(matches!(add_app_decision(path, Some("pw"), "pw", Some("1"), None, Some("n"), false), AddAppDecision::Reject("should include domain")));
    assert!(matches!(add_app_decision(path, Some("pw"), "pw", Some("1"), Some("d"), None, false), AddAppDecision::Reject("should include name")));
    match add_app_decision(path, Some("pw"), "pw", Some("3000"), Some("app.io"), Some("app"), true) {
        AddAppDecision::Register { domain, port, name, addr } => {
            assert_eq!((domain.as_str(), port, name.as_str(), addr.as_str()), ("app.io", 3000, "app", "https://app.io"));
        }
        _ => panic!("expected registration"),
    }
}

#[test]
fn upstream_choice() {
    let mut apps = AppRegistry::new();
    apps.insert("a.io".to_string(), 3000);
    assert_eq!(choose_upstream(None, &apps), Upstream::MissingHost);
    assert_eq!(choose_upstream(Some(None), &apps), Upstream::InvalidHost);
    assert_eq!(choose_upstream(Some(Some("b.io")), &apps), Upstream::UnknownApp);
    assert_eq!(choose_upstream(Some(Some("a.io")), &apps), Upstream::Peer(3000));
    assert_eq!(upstream_addr(3000), "127.0.0.1:3000");
    assert!(registration_accepted(202));
    assert!(!registration_accepted(200));
}

#[test]
fn https_redirects() {
    assert_eq!(https_redirect("example.com:8080", Some("/a?b=1"), 443).unwrap(), "https://example.com:443/a?b=1");
    assert_eq!(https_redirect("example.com", None, 443).unwrap(), "https://example.com:443/");
    assert_eq!(https_redirect("bad host", None, 443), Err(400));
}
