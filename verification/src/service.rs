//! The gateway's decision core: route resolution and the per-request
//! pipeline, a linear state machine whose network steps are carried out by
//! the surrounding program.

use vstd::prelude::*;
use vstd::string::StringExecFns;
use crate::config::{GatewayConfig, ServiceConfig};
use crate::http::{
    GatewayResponse, InboundRequest, OutboundRequest, ResponseBody, clone_bytes, credential_of,
    extract_auth_header, header_view, lemma_outbound_authorization, lookup, outbound_headers,
    with_authorization,
};
use crate::pattern::{pattern_matches, regex_pattern, regex_is_match};

verus! {

/// Whether a route's pattern matches the request path (search semantics, on
/// the raw path).
pub open spec fn route_matches(route: ServiceConfig, path: Seq<char>) -> bool {
    pattern_matches(regex_pattern(route.path), path)
}

/// The index of the first route whose pattern matches the path, if any:
/// declaration order decides between overlapping patterns.
pub open spec fn matching_index(routes: Seq<ServiceConfig>, path: Seq<char>) -> Option<int>
    decreases routes.len(),
{
    if routes.len() == 0 {
        None
    } else if route_matches(routes[0], path) {
        Some(0int)
    } else {
        match matching_index(routes.drop_first(), path) {
            Some(i) => Some(i + 1),
            None => None,
        }
    }
}

/// If route `i` matches the path and no earlier route does, route `i` is the
/// resolved one.
pub proof fn lemma_matching_index_found(routes: Seq<ServiceConfig>, path: Seq<char>, i: int)
    requires
        0 <= i < routes.len(),
        route_matches(routes[i], path),
        forall|j: int| 0 <= j < i ==> !route_matches(routes[j], path),
    ensures
        matching_index(routes, path) == Some(i),
    decreases i,
{
    if i == 0 {
    } else {
        assert(!route_matches(routes[0], path));
        assert(forall|j: int| 0 <= j < i - 1 ==> routes.drop_first()[j] == routes[j + 1]);
        lemma_matching_index_found(routes.drop_first(), path, i - 1);
        assert(routes.drop_first()[i - 1] == routes[i]);
    }
}

/// If no route matches the path, resolution finds nothing.
pub proof fn lemma_matching_index_absent(routes: Seq<ServiceConfig>, path: Seq<char>)
    requires
        forall|j: int| 0 <= j < routes.len() ==> !route_matches(routes[j], path),
    ensures
        matching_index(routes, path) is None,
    decreases routes.len(),
{
    if routes.len() > 0 {
        assert(forall|j: int| 0 <= j < routes.len() - 1 ==> routes.drop_first()[j] == routes[j
            + 1]);
        lemma_matching_index_absent(routes.drop_first(), path);
    }
}

/// First-match-wins, stated the other way round: whatever resolution
/// returns, the returned route matches the path and no earlier route does;
/// and when it returns nothing, no route matches. Resolution is a function
/// of the route table and the path alone.
pub proof fn lemma_first_match_wins(routes: Seq<ServiceConfig>, path: Seq<char>)
    ensures
        matching_index(routes, path) matches Some(i) ==> {
            &&& 0 <= i < routes.len()
            &&& route_matches(routes[i], path)
            &&& forall|j: int| 0 <= j < i ==> !route_matches(routes[j], path)
        },
        matching_index(routes, path) is None ==> forall|j: int|
            0 <= j < routes.len() ==> !route_matches(routes[j], path),
    decreases routes.len(),
{
    if routes.len() > 0 && !route_matches(routes[0], path) {
        let rest = routes.drop_first();
        lemma_first_match_wins(rest, path);
        assert(forall|j: int| 0 <= j < routes.len() - 1 ==> rest[j] == routes[j + 1]);
        match matching_index(rest, path) {
            Some(i) => {
                assert(matching_index(routes, path) == Some(i + 1));
                assert(route_matches(rest[i], path));
                assert forall|j: int| 0 <= j < i + 1 implies !route_matches(
                    routes[j],
                    path,
                ) by {
                    if j > 0 {
                        assert(!route_matches(rest[j - 1], path));
                    }
                }
            },
            None => {
                assert forall|j: int| 0 <= j < routes.len() implies !route_matches(
                    routes[j],
                    path,
                ) by {
                    if j > 0 {
                        assert(!route_matches(rest[j - 1], path));
                    }
                }
            },
        }
    }
}

/// Finds the index of the first route whose pattern matches the path.
pub fn find_route(path: &str, services: &Vec<ServiceConfig>) -> (r: Option<usize>)
    ensures
        match r {
            Some(i) => i < services@.len() && matching_index(services@, path@) == Some(
                i as int,
            ),
            None => matching_index(services@, path@) is None,
        },
{
    let mut i: usize = 0;
    while i < services.len()
        invariant
            i <= services.len(),
            forall|j: int| 0 <= j < i ==> !route_matches(services@[j], path@),
        decreases services.len() - i,
    {
        if regex_is_match(&services[i].path, path) {
            proof {
                lemma_matching_index_found(services@, path@, i as int);
            }
            return Some(i);
        }
        i += 1;
    }
    proof {
        lemma_matching_index_absent(services@, path@);
    }
    None
}

/// Resolves the request path to the first matching route, if any.
pub fn get_service_config<'a>(path: &str, services: &'a Vec<ServiceConfig>) -> (r: Option<
    &'a ServiceConfig,
>)
    ensures
        match r {
            Some(c) => matching_index(services@, path@) matches Some(i) && *c == services@[i],
            None => matching_index(services@, path@) is None,
        },
{
    match find_route(path, services) {
        Some(i) => Some(&services[i]),
        None => None,
    }
}

/// What one request asks of the surrounding program next: hand a finished
/// response to the caller, perform the authorization call, or forward the
/// built downstream request to the backend.
pub enum GatewayStep {
    /// The response is decided; return it to the original caller.
    Respond(GatewayResponse),
    /// Issue a GET to `auth_api_url` carrying `credential` as its
    /// `authorization` header, then resume with the outcome and
    /// `route_index`.
    Authorize { auth_api_url: String, credential: String, route_index: usize },
    /// Send the downstream request to the backend, then resume with the
    /// outcome.
    Forward(OutboundRequest),
}

/// The health-check response: 200 with body "OK" and no headers.
pub open spec fn health_ok_response(r: GatewayResponse) -> bool {
    &&& r.status == 200
    &&& r.headers@.len() == 0
    &&& (r.body matches ResponseBody::Text(t) && t@ == "OK"@)
}

/// The response for an unrouted path: 404 with body "404 Not Found".
pub open spec fn not_found_response(r: GatewayResponse) -> bool {
    &&& r.status == 404
    &&& r.headers@.len() == 0
    &&& (r.body matches ResponseBody::Text(t) && t@ == "404 Not Found"@)
}

/// A synthesized failure response: 503 with the given reason as body.
pub open spec fn unavailable_response(r: GatewayResponse, reason: Seq<char>) -> bool {
    &&& r.status == 503
    &&& r.headers@.len() == 0
    &&& (r.body matches ResponseBody::Text(t) && t@ == reason)
}

/// What the downstream request must be: the inbound method, the URI
/// `target_service:target_port` followed by the raw inbound path, the
/// inbound headers with `authorization` overwritten by the credential, and
/// the inbound body unchanged.
pub open spec fn outbound_for(
    out: OutboundRequest,
    req: InboundRequest,
    route: ServiceConfig,
    credential: Seq<char>,
) -> bool {
    &&& out.method@ == req.method@
    &&& out.uri@ == route.target_service@ + ":"@ + route.target_port@ + req.path@
    &&& header_view(out.headers@) == outbound_headers(header_view(req.headers@), credential)
    &&& out.body@ == req.body@
}

/// Every downstream request the pipeline builds hands the backend exactly
/// the forwarded credential: its `authorization` header reads `credential`,
/// whatever the inbound request carried.
pub proof fn lemma_forwarded_credential(
    out: OutboundRequest,
    req: InboundRequest,
    route: ServiceConfig,
    credential: Seq<char>,
)
    requires
        outbound_for(out, req, route, credential),
    ensures
        lookup(header_view(out.headers@), "authorization"@) == Some(credential),
{
    lemma_outbound_authorization(header_view(req.headers@), credential);
}

/// Whether the authorization endpoint allowed the request: it answered at
/// all, with a 2xx status. A denial and an unreachable endpoint count the
/// same.
pub open spec fn auth_success(status: Option<u16>) -> bool {
    status matches Some(s) && 200 <= s < 300
}

/// Builds the health-check response.
pub fn health_check() -> (r: GatewayResponse)
    ensures
        health_ok_response(r),
{
    GatewayResponse { status: 200, headers: Vec::new(), body: ResponseBody::Text("OK".to_owned()) }
}

/// Builds the response for a path no route matches.
pub fn not_found() -> (r: GatewayResponse)
    ensures
        not_found_response(r),
{
    GatewayResponse {
        status: 404,
        headers: Vec::new(),
        body: ResponseBody::Text("404 Not Found".to_owned()),
    }
}

/// Builds a 503 response carrying the given reason as its body.
pub fn service_unavailable(reason: String) -> (r: GatewayResponse)
    ensures
        unavailable_response(r, reason@),
{
    GatewayResponse { status: 503, headers: Vec::new(), body: ResponseBody::Text(reason) }
}

/// Builds the downstream request for the resolved route: same method, URI
/// `target_service:target_port` + inbound path, inbound headers with
/// `authorization` overwritten by `auth_token`, inbound body copied whole.
pub fn build_downstream_request(
    req: &InboundRequest,
    service_config: &ServiceConfig,
    auth_token: &String,
) -> (r: OutboundRequest)
    ensures
        outbound_for(r, *req, *service_config, auth_token@),
{
    let mut uri: String = service_config.target_service.clone();
    uri.append(":");
    uri.append(service_config.target_port.as_str());
    uri.append(req.path.as_str());
    OutboundRequest {
        method: req.method.clone(),
        uri,
        headers: with_authorization(&req.headers, auth_token),
        body: clone_bytes(&req.body),
    }
}

/// Decides the authorization outcome from the endpoint's answer: on any 2xx
/// status the request is authorized and carries its original credential
/// forward; on any other status, or none at all, it is refused.
pub fn authorize_user(headers: &Vec<(String, String)>, auth_status: Option<u16>) -> (r: Result<
    String,
    (),
>)
    ensures
        auth_success(auth_status) ==> (r matches Ok(c) && c@ == credential_of(headers@)),
        !auth_success(auth_status) ==> r is Err,
{
    let credential = extract_auth_header(headers);
    match auth_status {
        Some(s) => if 200 <= s && s < 300 {
            Ok(credential)
        } else {
            Err(())
        },
        None => Err(()),
    }
}

/// The first stage of the pipeline, from the inbound request to the next
/// step: answer the health check directly; resolve the path against the
/// route table, answering 404 on a miss; on a hit, either ask for the
/// authorization call (when the route requires it) or build the downstream
/// request at once with an empty credential.
pub fn handle_request(req: &InboundRequest, config: &GatewayConfig) -> (r: GatewayStep)
    ensures
        req.path@ == "/health-check"@ ==> (r matches GatewayStep::Respond(resp)
            && health_ok_response(resp)),
        req.path@ != "/health-check"@ && matching_index(config.services@, req.path@) is None
            ==> (r matches GatewayStep::Respond(resp) && not_found_response(resp)),
        req.path@ != "/health-check"@ ==> (matching_index(config.services@, req.path@)
            matches Some(i) ==> (if config.services@[i].auth_required() {
            r matches GatewayStep::Authorize { auth_api_url, credential, route_index }
                && auth_api_url@ == config.authorization_api_url@ && credential@
                == credential_of(req.headers@) && route_index as int == i
        } else {
            r matches GatewayStep::Forward(out) && outbound_for(
                out,
                *req,
                config.services@[i],
                Seq::empty(),
            )
        })),
{
    let hc: String = "/health-check".to_owned();
    if req.path == hc {
        return GatewayStep::Respond(health_check());
    }
    match find_route(req.path.as_str(), &config.services) {
        None => GatewayStep::Respond(not_found()),
        Some(i) => {
            let route = &config.services[i];
            if route.authentication_required.unwrap_or(true) {
                GatewayStep::Authorize {
                    auth_api_url: config.authorization_api_url.clone(),
                    credential: extract_auth_header(&req.headers),
                    route_index: i,
                }
            } else {
                let empty: String = String::new();
                GatewayStep::Forward(build_downstream_request(req, route, &empty))
            }
        },
    }
}

/// The second stage, after the authorization call: a refusal (any non-2xx
/// answer, or none) ends the request with 503 "Failed to connect to
/// Authorization API" and never reaches the backend; an allowance builds the
/// downstream request carrying the request's original credential.
pub fn handle_auth_response(
    req: &InboundRequest,
    config: &GatewayConfig,
    route_index: usize,
    auth_status: Option<u16>,
) -> (r: GatewayStep)
    requires
        route_index < config.services@.len(),
    ensures
        !auth_success(auth_status) ==> (r matches GatewayStep::Respond(resp)
            && unavailable_response(resp, "Failed to connect to Authorization API"@)),
        auth_success(auth_status) ==> (r matches GatewayStep::Forward(out) && outbound_for(
            out,
            *req,
            config.services@[route_index as int],
            credential_of(req.headers@),
        )),
{
    match authorize_user(&req.headers, auth_status) {
        Ok(token) => {
            let route = &config.services[route_index];
            GatewayStep::Forward(build_downstream_request(req, route, &token))
        },
        Err(_) => GatewayStep::Respond(
            service_unavailable("Failed to connect to Authorization API".to_owned()),
        ),
    }
}

/// The last stage, after the forward: the backend's response is handed back
/// unchanged; if the backend could not be reached, the caller receives 503
/// "Failed to connect to downstream service".
pub fn handle_forward_result(result: Option<GatewayResponse>) -> (r: GatewayResponse)
    ensures
        result matches Some(resp) ==> r == resp,
        result is None ==> unavailable_response(r, "Failed to connect to downstream service"@),
{
    match result {
        Some(res) => res,
        None => service_unavailable("Failed to connect to downstream service".to_owned()),
    }
}

} // verus!

