use tempdrop::api::{asset_plan, client_ip_candidates, page_security_headers, relative_asset_path};
use tempdrop::text::{parse_i64, parse_u64, parse_unsigned, str_contains, u64_to_string};

#[test]
fn numbers_parse_like_str_parse() {
    assert_eq!(parse_u64("42"), Some(42));
    assert_eq!(parse_u64("+7"), Some(7));
    assert_eq!(parse_u64("18446744073709551615"), Some(u64::MAX));
    assert_eq!(parse_u64("18446744073709551616"), None);
    assert_eq!(parse_u64("-1"), None);
    assert_eq!(parse_u64(""), None);
    assert_eq!(parse_u64("+"), None);
    assert_eq!(parse_u64(" 1"), None);
    assert_eq!(parse_unsigned("65535", 65535), Some(65535));
    assert_eq!(parse_unsigned("65536", 65535), None);
    assert_eq!(parse_i64("-9223372036854775808"), Some(i64::MIN));
    assert_eq!(parse_i64("9223372036854775807"), Some(i64::MAX));
    assert_eq!(parse_i64("9223372036854775808"), None);
    assert_eq!(parse_i64("-"), None);
    assert_eq!(parse_i64("-12"), Some(-12));
    assert_eq!(u64_to_string(0), "0");
    assert_eq!(u64_to_string(1234567890), "1234567890");
    assert!(str_contains("service error: NoSuchKey", "NoSuchKey"));
    assert!(!str_contains("Key", "NoSuchKey"));
}

#[test]
fn static_fallback_serves_index() {
    let rel = relative_asset_path("/f/abc123456789");
    assert_eq!(rel, "f/abc123456789");
    let plan = asset_plan(&rel, false).unwrap();
    assert_eq!(plan.file, "index.html");
    assert_eq!(plan.mime, "text/html");
    assert!(asset_plan("api/nope", false).is_none());
    assert_eq!(asset_plan("", false).unwrap().file, "index.html");
    let css = asset_plan("assets/app.css", true).unwrap();
    assert_eq!(css.file, "assets/app.css");
    assert_eq!(css.mime, "text/css");
    assert_eq!(relative_asset_path("//index.html"), "index.html");
}

#[test]
fn client_ip_candidates_follow_proxy_priority() {
    assert!(client_ip_candidates(false, Some("1.2.3.4"), Some("5.6.7.8")).is_empty());
    assert_eq!(
        client_ip_candidates(true, Some(" 1.2.3.4 "), Some("5.6.7.8 , 9.9.9.9")),
        vec!["1.2.3.4".to_string(), "5.6.7.8".to_string()]
    );
    assert_eq!(client_ip_candidates(true, None, Some("5.6.7.8")), vec!["5.6.7.8".to_string()]);
}

#[test]
fn pages_carry_the_security_headers() {
    let h = page_security_headers();
    assert_eq!(h.len(), 4);
    assert_eq!(h[0].0, "Content-Security-Policy");
    assert!(h[0].1.contains("script-src 'self';"));
    assert!(h[0].1.contains("frame-ancestors 'none'"));
    assert!(!h[0].1.contains("unsafe-eval"));
    assert_eq!(h[1], ("X-Content-Type-Options", "nosniff"));
    assert_eq!(h[2], ("X-Frame-Options", "DENY"));
    assert_eq!(h[3], ("Referrer-Policy", "no-referrer"));
}
