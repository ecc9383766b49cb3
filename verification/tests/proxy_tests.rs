use proxyflare::headers::sanitize_response_headers;
use proxyflare::ip::{generate_random_ip, synthetic_ip};
use proxyflare::params::filtered_params;
use proxyflare::pipeline::{plan_request, InboundRequest, RequestPlan};

fn pairs(items: &[(&str, &str)]) -> Vec<(String, String)> {
    items.iter().map(|(k, v)| (k.to_string(), v.to_string())).collect()
}

fn req(method: &str, path: &str, query: &[(&str, &str)], headers: &[(&str, &str)]) -> InboundRequest {
    InboundRequest {
        method: method.to_string(),
        path: path.to_string(),
        query: pairs(query),
        headers: pairs(headers),
    }
}

fn forwarded(plan: RequestPlan) -> (String, Vec<(String, String)>, bool) {
    match plan {
        RequestPlan::Forward { url, headers, include_body } => (url, headers, include_body),
        _ => panic!("expected a forward plan"),
    }
}

#[test]
fn test_generate_random_ip_format() {
    let ip = generate_random_ip();
    let parts: Vec<&str> = ip.split('.').collect();
    assert_eq!(parts.len(), 4, "IP must have 4 octets: {ip}");

    for part in &parts {
        let octet: u8 = part
            .parse()
            .unwrap_or_else(|_| panic!("Octet '{part}' is not a valid u8 in IP: {ip}"));
        assert!(octet >= 1, "Octet must be >= 1, got {octet} in {ip}");
        // u8 max is 255, so no need to check upper bound explicitly
    }
}

#[test]
fn test_generate_random_ip_nonzero_octets() {
    // Run multiple times to increase confidence
    for _ in 0..10 {
        let ip = generate_random_ip();
        for part in ip.split('.') {
            let octet: u8 = part.parse().expect("valid octet");
            assert!(octet >= 1, "0 is not a valid octet for X-Forwarded-For");
        }
    }
}

#[test]
fn test_filtered_params_contains_expected() {
    let filtered = filtered_params();
    assert!(filtered.contains(&"url".to_string()));
    assert!(filtered.contains(&"_cb".to_string()));
    assert!(filtered.contains(&"_t".to_string()));
    assert_eq!(filtered.len(), 3);
}

#[test]
fn test_filtered_params_does_not_contain_other() {
    let filtered = filtered_params();
    assert!(!filtered.contains(&"page".to_string()));
    assert!(!filtered.contains(&"q".to_string()));
    assert!(!filtered.contains(&"token".to_string()));
}

#[test]
fn synthetic_ip_matches_generator_formula() {
    assert_eq!(synthetic_ip(0), "126.17.34.233");
    assert_eq!(synthetic_ip(1), "172.179.153.205");
    assert_eq!(synthetic_ip(12345), "241.110.5.10");
}

#[test]
fn synthetic_ip_replaces_zero_octets_with_one() {
    // these seeds draw a zero byte in the third, first and second position
    assert_eq!(synthetic_ip(32), "40.81.1.91");
    assert_eq!(synthetic_ip(195), "1.120.188.66");
    assert_eq!(synthetic_ip(199), "181.1.152.208");
}

#[test]
fn target_from_url_param_with_cache_buster() {
    let r = req(
        "GET",
        "/",
        &[("url", "https://api.example.com/data"), ("_cb", "123"), ("page", "2")],
        &[],
    );
    let (url, headers, include_body) = forwarded(plan_request(&r, 7));
    assert_eq!(url, "https://api.example.com/data?page=2");
    assert!(!include_body);
    // no inbound headers survive, so exactly the synthetic identity is added
    assert_eq!(headers.len(), 1);
    assert_eq!(headers[0].0, "X-Forwarded-For");
    assert_eq!(headers[0].1, synthetic_ip(7));
}

#[test]
fn target_from_header() {
    let r = req("GET", "/", &[], &[("X-Target-URL", "https://api.example.com/x")]);
    let (url, headers, _) = forwarded(plan_request(&r, 1));
    assert_eq!(url, "https://api.example.com/x");
    // the X-Target-URL header itself is not excluded, so it is forwarded too
    assert!(headers.contains(&("X-Target-URL".to_string(), "https://api.example.com/x".to_string())));
}

#[test]
fn target_header_lookup_is_case_insensitive() {
    let r = req("GET", "/", &[], &[("x-target-url", "https://api.example.com/ci")]);
    let (url, _, _) = forwarded(plan_request(&r, 1));
    assert_eq!(url, "https://api.example.com/ci");
}

#[test]
fn target_from_path() {
    let r = req("GET", "/https://api.example.com/y", &[], &[]);
    let (url, _, _) = forwarded(plan_request(&r, 1));
    assert_eq!(url, "https://api.example.com/y");
}

#[test]
fn query_param_wins_over_header_and_path() {
    let r = req(
        "GET",
        "/https://path.example.com/p",
        &[("url", "https://query.example.com/q")],
        &[("X-Target-URL", "https://header.example.com/h")],
    );
    let (url, _, _) = forwarded(plan_request(&r, 1));
    assert_eq!(url, "https://query.example.com/q");
}

#[test]
fn header_wins_over_path() {
    let r = req(
        "GET",
        "/https://path.example.com/p",
        &[],
        &[("X-Target-URL", "https://header.example.com/h")],
    );
    let (url, _, _) = forwarded(plan_request(&r, 1));
    assert_eq!(url, "https://header.example.com/h");
}

#[test]
fn first_url_param_occurrence_wins() {
    let r = req(
        "GET",
        "/",
        &[("url", "https://first.example.com/"), ("url", "https://second.example.com/")],
        &[],
    );
    let (url, _, _) = forwarded(plan_request(&r, 1));
    assert_eq!(url, "https://first.example.com/");
}

#[test]
fn missing_target_is_rejected() {
    let r = req("GET", "/", &[], &[]);
    match plan_request(&r, 1) {
        RequestPlan::Reject { status, body } => {
            assert_eq!(status, 400);
            assert_eq!(body, "Missing target URL");
        }
        _ => panic!("expected a rejection"),
    }
}

#[test]
fn non_http_path_is_not_a_target() {
    let r = req("GET", "/some/other/path", &[], &[]);
    match plan_request(&r, 1) {
        RequestPlan::Reject { status, body } => {
            assert_eq!(status, 400);
            assert_eq!(body, "Missing target URL");
        }
        _ => panic!("expected a rejection"),
    }
}

#[test]
fn invalid_target_is_rejected() {
    let r = req("GET", "/", &[("url", "not-a-url")], &[]);
    match plan_request(&r, 1) {
        RequestPlan::Reject { status, body } => {
            assert_eq!(status, 400);
            assert_eq!(body, "Invalid target URL");
        }
        _ => panic!("expected a rejection"),
    }
}

#[test]
fn options_request_is_answered_with_cors() {
    let r = req("OPTIONS", "/anything/at/all", &[], &[]);
    match plan_request(&r, 1) {
        RequestPlan::Preflight { headers } => {
            assert_eq!(headers.len(), 3);
            assert_eq!(
                headers[0],
                ("Access-Control-Allow-Origin".to_string(), "*".to_string())
            );
            assert_eq!(
                headers[1],
                (
                    "Access-Control-Allow-Methods".to_string(),
                    "GET, POST, PUT, DELETE, OPTIONS, PATCH, HEAD".to_string()
                )
            );
            assert_eq!(
                headers[2],
                ("Access-Control-Allow-Headers".to_string(), "*".to_string())
            );
        }
        _ => panic!("expected a preflight answer"),
    }
}

#[test]
fn target_own_query_is_filtered_and_merged_first() {
    // the target's own `_t` is dropped, its `keep` stays ahead of the
    // caller's extra parameter
    let r = req(
        "GET",
        "/",
        &[("url", "https://api.example.com/data?_t=5&keep=1"), ("page", "2")],
        &[],
    );
    let (url, _, _) = forwarded(plan_request(&r, 1));
    assert_eq!(url, "https://api.example.com/data?keep=1&page=2");
}

#[test]
fn empty_rewritten_query_leaves_no_question_mark() {
    let r = req("GET", "/", &[("url", "https://api.example.com/data?_t=5"), ("_cb", "9")], &[]);
    let (url, _, _) = forwarded(plan_request(&r, 1));
    assert_eq!(url, "https://api.example.com/data");
}

#[test]
fn duplicate_keys_across_sources_are_kept() {
    let r = req(
        "GET",
        "/",
        &[("url", "https://api.example.com/data?page=1"), ("page", "2")],
        &[],
    );
    let (url, _, _) = forwarded(plan_request(&r, 1));
    assert_eq!(url, "https://api.example.com/data?page=1&page=2");
}

#[test]
fn request_headers_are_scrubbed_and_passed_through() {
    let r = req(
        "POST",
        "/",
        &[("url", "https://api.example.com/data")],
        &[
            ("Host", "proxy.example"),
            ("CF-Connecting-IP", "1.2.3.4"),
            ("cf-ipcountry", "XX"),
            ("CF-RAY", "abc"),
            ("cf-visitor", "{}"),
            ("Authorization", "Bearer tok"),
            ("X-Custom", "v"),
        ],
    );
    let (_, headers, include_body) = forwarded(plan_request(&r, 3));
    assert!(include_body);
    assert!(headers.contains(&("Authorization".to_string(), "Bearer tok".to_string())));
    assert!(headers.contains(&("X-Custom".to_string(), "v".to_string())));
    for (k, _) in &headers {
        let kl = k.to_lowercase();
        assert!(kl != "host" && !kl.starts_with("cf-"), "header {k} should have been dropped");
    }
    // none of the survivors was a forwarded-for value, so one was synthesized
    let xff: Vec<&(String, String)> =
        headers.iter().filter(|(k, _)| k == "X-Forwarded-For").collect();
    assert_eq!(xff.len(), 1);
    assert_eq!(xff[0].1, synthetic_ip(3));
}

#[test]
fn forwarded_for_override_is_renamed_not_synthesized() {
    let r = req(
        "GET",
        "/",
        &[("url", "https://api.example.com/data")],
        &[("x-my-x-forwarded-for", "9.9.9.9")],
    );
    let (_, headers, _) = forwarded(plan_request(&r, 3));
    let xff: Vec<&(String, String)> =
        headers.iter().filter(|(k, _)| k.to_lowercase() == "x-forwarded-for").collect();
    assert_eq!(xff.len(), 1);
    assert_eq!(xff[0].0, "X-Forwarded-For");
    assert_eq!(xff[0].1, "9.9.9.9");
}

#[test]
fn inbound_forwarded_for_passes_through_unsynthesized() {
    let r = req(
        "GET",
        "/",
        &[("url", "https://api.example.com/data")],
        &[("X-Forwarded-For", "8.8.8.8")],
    );
    let (_, headers, _) = forwarded(plan_request(&r, 3));
    let xff: Vec<&(String, String)> =
        headers.iter().filter(|(k, _)| k.to_lowercase() == "x-forwarded-for").collect();
    assert_eq!(xff.len(), 1);
    assert_eq!(xff[0].1, "8.8.8.8");
}

#[test]
fn get_and_head_carry_no_body() {
    let get = req("GET", "/", &[("url", "https://api.example.com/a")], &[]);
    let head = req("HEAD", "/", &[("url", "https://api.example.com/a")], &[]);
    let post = req("POST", "/", &[("url", "https://api.example.com/a")], &[]);
    assert!(!forwarded(plan_request(&get, 1)).2);
    assert!(!forwarded(plan_request(&head, 1)).2);
    assert!(forwarded(plan_request(&post, 1)).2);
}

#[test]
fn response_headers_are_stripped_and_get_cors() {
    let upstream = pairs(&[
        ("Content-Type", "application/json"),
        ("content-encoding", "gzip"),
        ("Content-Length", "10"),
        ("Transfer-Encoding", "chunked"),
        ("X-Upstream", "yes"),
    ]);
    let out = sanitize_response_headers(&upstream);
    assert_eq!(
        out,
        pairs(&[
            ("Content-Type", "application/json"),
            ("X-Upstream", "yes"),
            ("Access-Control-Allow-Origin", "*"),
            ("Access-Control-Allow-Methods", "GET, POST, PUT, DELETE, OPTIONS, PATCH, HEAD"),
            ("Access-Control-Allow-Headers", "*"),
        ])
    );
}

#[test]
fn upstream_cors_headers_are_replaced_not_duplicated() {
    let upstream = pairs(&[("Access-Control-Allow-Origin", "https://only.example")]);
    let out = sanitize_response_headers(&upstream);
    let origins: Vec<&(String, String)> = out
        .iter()
        .filter(|(k, _)| k.to_lowercase() == "access-control-allow-origin")
        .collect();
    assert_eq!(origins.len(), 1);
    assert_eq!(origins[0].1, "*");
}

#[test]
fn planning_twice_differs_only_in_synthetic_identity() {
    let r = req(
        "GET",
        "/",
        &[("url", "https://api.example.com/data"), ("page", "2")],
        &[("X-Custom", "v")],
    );
    let (url_a, headers_a, body_a) = forwarded(plan_request(&r, 11));
    let (url_b, headers_b, body_b) = forwarded(plan_request(&r, 22));
    assert_eq!(url_a, url_b);
    assert_eq!(body_a, body_b);
    assert_eq!(headers_a.len(), headers_b.len());
    let n = headers_a.len();
    assert_eq!(headers_a[..n - 1], headers_b[..n - 1]);
    assert_eq!(headers_a[n - 1].0, "X-Forwarded-For");
    assert_eq!(headers_b[n - 1].0, "X-Forwarded-For");
    // and with the same seed the whole plan is identical
    let again = forwarded(plan_request(&r, 11));
    assert_eq!(again.0, url_a);
    assert_eq!(again.1, headers_a);
}
