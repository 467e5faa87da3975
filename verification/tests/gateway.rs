use gateway::config::{GatewayConfig, ServiceConfig};
use gateway::http::{GatewayResponse, InboundRequest, ResponseBody};
use gateway::service::{
    authorize_user, get_service_config, handle_auth_response, handle_forward_result,
    handle_request, health_check, not_found, service_unavailable, GatewayStep,
};

fn route(pattern: &str, service: &str, port: &str, auth: Option<bool>) -> ServiceConfig {
    ServiceConfig::new(pattern, service.to_string(), port.to_string(), auth)
        .ok()
        .expect("pattern should compile")
}

fn request(method: &str, path: &str, headers: Vec<(&str, &str)>) -> InboundRequest {
    InboundRequest {
        method: method.to_string(),
        path: path.to_string(),
        headers: headers
            .into_iter()
            .map(|(n, v)| (n.to_string(), v.to_string()))
            .collect(),
        body: Vec::new(),
    }
}

fn text_body(r: &GatewayResponse) -> String {
    match &r.body {
        ResponseBody::Text(t) => t.clone(),
        ResponseBody::Bytes(_) => panic!("expected a text body"),
    }
}

#[test]
fn health_check_test() {
    let config = GatewayConfig {
        authorization_api_url: "http://localhost:9000/auth".to_string(),
        services: Vec::new(),
    };
    let req = request("GET", "/health-check", Vec::new());
    match handle_request(&req, &config) {
        GatewayStep::Respond(resp) => {
            assert_eq!(resp.status, 200);
            assert_eq!(text_body(&resp), "OK");
        }
        _ => panic!("health check must respond directly"),
    }
}

#[test]
fn health_check_ignores_routes() {
    let config = GatewayConfig {
        authorization_api_url: "http://localhost:9000/auth".to_string(),
        services: vec![route(".*", "http://127.0.0.1", "9001", Some(true))],
    };
    let req = request("GET", "/health-check", Vec::new());
    match handle_request(&req, &config) {
        GatewayStep::Respond(resp) => {
            assert_eq!(resp.status, 200);
            assert_eq!(text_body(&resp), "OK");
        }
        _ => panic!("health check must respond directly even with a catch-all route"),
    }
}

#[test]
fn unmatched_path_returns_404() {
    let config = GatewayConfig {
        authorization_api_url: "http://localhost:9000/auth".to_string(),
        services: vec![route("^/api/.*", "http://127.0.0.1", "9001", Some(false))],
    };
    let req = request("GET", "/other/thing", Vec::new());
    match handle_request(&req, &config) {
        GatewayStep::Respond(resp) => {
            assert_eq!(resp.status, 404);
            assert_eq!(text_body(&resp), "404 Not Found");
        }
        _ => panic!("an unmatched path must respond directly"),
    }
}

#[test]
fn first_match_wins() {
    let config = GatewayConfig {
        authorization_api_url: "http://localhost:9000/auth".to_string(),
        services: vec![
            route("^/api/.*", "http://first", "9001", Some(false)),
            route(".*", "http://second", "9002", Some(false)),
        ],
    };
    let req = request("GET", "/api/items", Vec::new());
    match handle_request(&req, &config) {
        GatewayStep::Forward(out) => assert_eq!(out.uri, "http://first:9001/api/items"),
        _ => panic!("a routed request without authentication must forward"),
    }
    let req = request("GET", "/elsewhere", Vec::new());
    match handle_request(&req, &config) {
        GatewayStep::Forward(out) => assert_eq!(out.uri, "http://second:9002/elsewhere"),
        _ => panic!("the catch-all route must forward"),
    }
}

#[test]
fn no_auth_route_skips_authorization() {
    let config = GatewayConfig {
        authorization_api_url: "http://localhost:9000/auth".to_string(),
        services: vec![route("^/open/.*", "http://127.0.0.1", "9001", Some(false))],
    };
    let req = request("POST", "/open/door", vec![("authorization", "Bearer abc")]);
    match handle_request(&req, &config) {
        GatewayStep::Forward(_) => {}
        GatewayStep::Authorize { .. } => {
            panic!("a route without required authentication must not consult the authorizer")
        }
        GatewayStep::Respond(_) => panic!("a matched route must forward"),
    }
}

#[test]
fn auth_route_requests_authorization() {
    let config = GatewayConfig {
        authorization_api_url: "http://localhost:9000/auth".to_string(),
        services: vec![route("^/api/.*", "http://127.0.0.1", "9001", None)],
    };
    let req = request("GET", "/api/items", vec![("authorization", "Bearer abc")]);
    match handle_request(&req, &config) {
        GatewayStep::Authorize { auth_api_url, credential, route_index } => {
            assert_eq!(auth_api_url, "http://localhost:9000/auth");
            assert_eq!(credential, "Bearer abc");
            assert_eq!(route_index, 0);
        }
        _ => panic!("a route with authentication unset must consult the authorizer"),
    }
}

#[test]
fn missing_auth_header_yields_empty_credential() {
    let config = GatewayConfig {
        authorization_api_url: "http://localhost:9000/auth".to_string(),
        services: vec![route("^/api/.*", "http://127.0.0.1", "9001", Some(true))],
    };
    let req = request("GET", "/api/items", vec![("content-type", "text/plain")]);
    match handle_request(&req, &config) {
        GatewayStep::Authorize { credential, .. } => assert_eq!(credential, ""),
        _ => panic!("a route requiring authentication must consult the authorizer"),
    }
}

#[test]
fn auth_failure_yields_503() {
    let config = GatewayConfig {
        authorization_api_url: "http://localhost:9000/auth".to_string(),
        services: vec![route("^/api/.*", "http://127.0.0.1", "9001", None)],
    };
    let req = request("GET", "/api/items", vec![("authorization", "Bearer abc")]);
    for status in [None, Some(401u16), Some(500u16), Some(199u16), Some(300u16)] {
        match handle_auth_response(&req, &config, 0, status) {
            GatewayStep::Respond(resp) => {
                assert_eq!(resp.status, 503);
                assert_eq!(text_body(&resp), "Failed to connect to Authorization API");
            }
            _ => panic!("a refused authorization must never reach the backend"),
        }
    }
}

#[test]
fn auth_success_forwards_with_original_credential() {
    let config = GatewayConfig {
        authorization_api_url: "http://localhost:9000/auth".to_string(),
        services: vec![route("^/api/.*", "http://127.0.0.1", "9001", None)],
    };
    let req = request(
        "PUT",
        "/api/items",
        vec![("content-type", "text/plain"), ("authorization", "Bearer abc"), ("x-extra", "y")],
    );
    for status in [Some(200u16), Some(204u16), Some(299u16)] {
        match handle_auth_response(&req, &config, 0, status) {
            GatewayStep::Forward(out) => {
                assert_eq!(out.method, "PUT");
                assert_eq!(out.uri, "http://127.0.0.1:9001/api/items");
                assert_eq!(
                    out.headers,
                    vec![
                        ("content-type".to_string(), "text/plain".to_string()),
                        ("x-extra".to_string(), "y".to_string()),
                        ("authorization".to_string(), "Bearer abc".to_string()),
                    ]
                );
            }
            _ => panic!("an authorized request must forward"),
        }
    }
}

#[test]
fn backend_unreachable_yields_503() {
    let resp = handle_forward_result(None);
    assert_eq!(resp.status, 503);
    assert_eq!(text_body(&resp), "Failed to connect to downstream service");
}

#[test]
fn backend_response_passed_through() {
    let backend = GatewayResponse {
        status: 418,
        headers: vec![("content-type".to_string(), "application/json".to_string())],
        body: ResponseBody::Bytes(vec![1, 2, 3]),
    };
    let resp = handle_forward_result(Some(backend));
    assert_eq!(resp.status, 418);
    assert_eq!(
        resp.headers,
        vec![("content-type".to_string(), "application/json".to_string())]
    );
    match resp.body {
        ResponseBody::Bytes(b) => assert_eq!(b, vec![1, 2, 3]),
        _ => panic!("the backend body must pass through as bytes"),
    }
}

#[test]
fn body_passed_downstream_unchanged() {
    let config = GatewayConfig {
        authorization_api_url: "http://localhost:9000/auth".to_string(),
        services: vec![route("^/api/.*", "http://127.0.0.1", "9001", Some(false))],
    };
    let mut req = request("POST", "/api/items", Vec::new());
    req.body = vec![10, 20, 30, 40];
    match handle_request(&req, &config) {
        GatewayStep::Forward(out) => assert_eq!(out.body, vec![10, 20, 30, 40]),
        _ => panic!("a matched route without authentication must forward"),
    }
}

#[test]
fn api_items_scenario() {
    let config = GatewayConfig {
        authorization_api_url: "http://localhost:9000/auth".to_string(),
        services: vec![route("^/api/.*", "http://127.0.0.1", "9001", Some(false))],
    };
    let req = request("GET", "/api/items", Vec::new());
    match handle_request(&req, &config) {
        GatewayStep::Forward(out) => {
            assert_eq!(out.method, "GET");
            assert_eq!(out.uri, "http://127.0.0.1:9001/api/items");
            assert_eq!(
                out.headers,
                vec![("authorization".to_string(), "".to_string())]
            );
        }
        _ => panic!("the scenario route must forward without authorization"),
    }
}

#[test]
fn invalid_pattern_rejected() {
    let r = ServiceConfig::new("(", "http://127.0.0.1".to_string(), "9001".to_string(), None);
    assert!(r.is_err());
}

#[test]
fn get_service_config_resolves_first_match() {
    let services = vec![
        route("^/a/.*", "http://a", "1", None),
        route("^/a/b/.*", "http://ab", "2", None),
        route("^/b/.*", "http://b", "3", None),
    ];
    let found = get_service_config("/a/b/c", &services).expect("a route should match");
    assert_eq!(found.target_service, "http://a");
    let found = get_service_config("/b/c", &services).expect("a route should match");
    assert_eq!(found.target_service, "http://b");
    assert!(get_service_config("/c", &services).is_none());
}

#[test]
fn authorize_user_decision() {
    let headers = vec![("authorization".to_string(), "token-1".to_string())];
    assert_eq!(authorize_user(&headers, Some(204)), Ok("token-1".to_string()));
    assert_eq!(authorize_user(&headers, Some(200)), Ok("token-1".to_string()));
    assert_eq!(authorize_user(&headers, Some(301)), Err(()));
    assert_eq!(authorize_user(&headers, Some(403)), Err(()));
    assert_eq!(authorize_user(&headers, None), Err(()));
}

#[test]
fn response_builders() {
    let r = health_check();
    assert_eq!(r.status, 200);
    assert_eq!(text_body(&r), "OK");
    let r = not_found();
    assert_eq!(r.status, 404);
    assert_eq!(text_body(&r), "404 Not Found");
    let r = service_unavailable("down".to_string());
    assert_eq!(r.status, 503);
    assert_eq!(text_body(&r), "down");
}
