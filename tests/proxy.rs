use responses_api_proxy::proxy::{
    forwarded_header_name, host_header_value, is_hop_by_hop_header, route_request,
    RequestMethod, Route,
};

#[test]
fn only_post_v1_responses_is_forwarded() {
    assert_eq!(
        route_request(RequestMethod::Post, "/v1/responses", false),
        Route::Forward
    );
    assert_eq!(
        route_request(RequestMethod::Get, "/v1/responses", false),
        Route::Forbidden
    );
    assert_eq!(
        route_request(RequestMethod::Post, "/other", true),
        Route::Forbidden
    );
    assert_eq!(
        route_request(RequestMethod::Post, "/v1/responses?x=1", false),
        Route::Forbidden
    );
    assert_eq!(
        route_request(RequestMethod::Other, "/v1/responses", false),
        Route::Forbidden
    );
}

#[test]
fn shutdown_only_when_enabled() {
    assert_eq!(
        route_request(RequestMethod::Get, "/shutdown", true),
        Route::Shutdown
    );
    assert_eq!(
        route_request(RequestMethod::Get, "/shutdown", false),
        Route::Forbidden
    );
    assert_eq!(
        route_request(RequestMethod::Post, "/shutdown", true),
        Route::Forbidden
    );
}

#[test]
fn inbound_headers_are_lowercased_and_filtered() {
    assert_eq!(
        forwarded_header_name("Content-Type"),
        Some("content-type".to_string())
    );
    assert_eq!(forwarded_header_name("X-Custom"), Some("x-custom".to_string()));
    assert_eq!(forwarded_header_name("Authorization"), None);
    assert_eq!(forwarded_header_name("HOST"), None);
}

#[test]
fn hop_by_hop_headers_are_dropped() {
    for name in ["content-length", "transfer-encoding", "connection", "trailer", "upgrade"] {
        assert!(is_hop_by_hop_header(name));
    }
    assert!(!is_hop_by_hop_header("content-type"));
    assert!(!is_hop_by_hop_header("x-request-id"));
}

#[test]
fn host_header_from_url_parts() {
    assert_eq!(
        host_header_value(Some("api.openai.com"), None),
        Some("api.openai.com".to_string())
    );
    assert_eq!(
        host_header_value(Some("localhost"), Some(8080)),
        Some("localhost:8080".to_string())
    );
    assert_eq!(
        host_header_value(Some("h"), Some(0)),
        Some("h:0".to_string())
    );
    assert_eq!(
        host_header_value(Some("h"), Some(65535)),
        Some("h:65535".to_string())
    );
    assert_eq!(host_header_value(None, Some(1)), None);
}
