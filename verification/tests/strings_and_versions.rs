use acemcp_core::config::normalize_base_url;
use acemcp_core::config::validate_connection_inputs;
use acemcp_core::proxy::ProxySettings;
use acemcp_core::proxy::ProxyKind;
use acemcp_core::proxy::DetectedProxy;
use acemcp_core::proxy::build_probe_candidates;
use acemcp_core::proxy::is_reachable_status;
use acemcp_core::proxy::is_valid_proxy_type;
use acemcp_core::proxy::sort_detected_proxies;
use acemcp_core::strutil::u64_to_dec;
use acemcp_core::version::compare_versions;
use acemcp_core::version::parse_version_tag;
use acemcp_core::version::select_platform_asset;

#[test]
fn decimal_rendering_matches() {
    assert_eq!(u64_to_dec(0), "0");
    assert_eq!(u64_to_dec(7), "7");
    assert_eq!(u64_to_dec(12345), "12345");
    assert_eq!(u64_to_dec(u64::MAX), format!("{}", u64::MAX));
}

#[test]
fn version_comparison_is_numeric() {
    assert!(compare_versions("1.2.3", "1.2.2"));
    assert!(!compare_versions("1.2.2", "1.2.3"));
    assert!(!compare_versions("1.2", "1.2.0"));
    assert!(compare_versions("10.0", "2.0"));
    assert!(!compare_versions("0.9", "0.10"));
    assert!(compare_versions("2", "1.9.9"));
}

#[test]
fn version_tags_are_reduced_to_digits_and_dots() {
    assert_eq!(parse_version_tag("v1.2.3"), "1.2.3");
    assert_eq!(parse_version_tag("release-v2.10.0-beta"), "2.10.0");
    assert_eq!(parse_version_tag("nothing here"), "");
}

#[test]
fn platform_assets_are_matched_by_name() {
    let assets = vec![
        ("app-macos-aarch64.tar.gz".to_string(), "https://dl/mac".to_string()),
        ("app-windows-x86_64.zip".to_string(), "https://dl/win".to_string()),
        ("app-linux-x86_64.tar.gz".to_string(), "https://dl/linux".to_string()),
    ];
    assert_eq!(
        select_platform_asset(&assets, "linux-x86_64", "https://releases"),
        "https://dl/linux"
    );
    assert_eq!(
        select_platform_asset(&assets, "linux-aarch64", "https://releases"),
        "https://releases"
    );
}

#[test]
fn base_urls_get_a_scheme_and_lose_trailing_slashes() {
    assert_eq!(normalize_base_url("  example.com/  "), "http://example.com");
    assert_eq!(normalize_base_url("https://api.example.com///"), "https://api.example.com");
    assert_eq!(normalize_base_url("http://x"), "http://x");
}

#[test]
fn connection_inputs_are_validated_before_any_request() {
    assert_eq!(
        validate_connection_inputs("ftp://x", "token").unwrap_err(),
        "the endpoint URL must start with http:// or https://"
    );
    assert_eq!(
        validate_connection_inputs("https://x", "   ").unwrap_err(),
        "the authentication token must not be empty"
    );
    assert!(validate_connection_inputs("https://x", "tok").is_ok());
}

#[test]
fn proxy_urls_are_built_from_valid_settings_only() {
    let good = ProxySettings {
        proxy_type: "socks5".to_string(),
        host: " 127.0.0.1 ".to_string(),
        port: 1080,
        username: None,
        password: None,
    };
    assert_eq!(good.proxy_url().unwrap(), "socks5://127.0.0.1:1080");
    let bad_type = ProxySettings { proxy_type: "quic".to_string(), ..good_clone(&good) };
    assert_eq!(
        bad_type.proxy_url().unwrap_err(),
        "unsupported proxy type: only http, https and socks5 are accepted"
    );
    let blank_host = ProxySettings { host: "  ".to_string(), ..good_clone(&good) };
    assert_eq!(blank_host.proxy_url().unwrap_err(), "proxy host must not be empty");
    assert!(is_valid_proxy_type("https"));
    assert!(!is_valid_proxy_type("ssh"));
}

fn good_clone(p: &ProxySettings) -> ProxySettings {
    ProxySettings {
        proxy_type: p.proxy_type.clone(),
        host: p.host.clone(),
        port: p.port,
        username: p.username.clone(),
        password: p.password.clone(),
    }
}

#[test]
fn credentials_need_a_nonblank_user_name() {
    let with_user = ProxySettings {
        proxy_type: "http".to_string(),
        host: "h".to_string(),
        port: 1,
        username: Some(" alice ".to_string()),
        password: Some("SECRET-REDACTED".to_string()),
    };
    let (user, pass) = with_user.auth_credentials().unwrap();
    assert_eq!(user, "alice");
    assert_eq!(pass, "SECRET-REDACTED");
    let blank = ProxySettings { username: Some("  ".to_string()), ..good_clone(&with_user) };
    assert!(blank.auth_credentials().is_none());
}

#[test]
fn probe_candidates_extend_without_duplicates() {
    let base = build_probe_candidates(&None);
    assert_eq!(base.len(), 6);
    assert_eq!(base[0], (7890, ProxyKind::Http));
    let extended = build_probe_candidates(&Some(vec![9000, 0, 7890, 9000]));
    // 9000 joins as both protocols; 0 is skipped; (7890, http) is already
    // listed so only its socks5 twin joins
    assert_eq!(extended.len(), 9);
    assert!(extended.contains(&(9000, ProxyKind::Http)));
    assert!(extended.contains(&(9000, ProxyKind::Socks5)));
    assert!(extended.contains(&(7890, ProxyKind::Socks5)));
}

#[test]
fn detection_results_sort_by_time_with_unmeasured_last() {
    let p = |port: u16, t: Option<u64>| DetectedProxy {
        host: "127.0.0.1".to_string(),
        port,
        proxy_type: "http".to_string(),
        response_time_ms: t,
    };
    let sorted = sort_detected_proxies(vec![
        p(1, None),
        p(2, Some(30)),
        p(3, Some(5)),
        p(4, Some(30)),
    ]);
    let times: Vec<Option<u64>> = sorted.iter().map(|d| d.response_time_ms).collect();
    assert_eq!(times, vec![Some(5), Some(30), Some(30), None]);
}

#[test]
fn reachability_accepts_success_and_not_found() {
    assert!(is_reachable_status(200));
    assert!(is_reachable_status(204));
    assert!(is_reachable_status(404));
    assert!(!is_reachable_status(301));
    assert!(!is_reachable_status(500));
}
