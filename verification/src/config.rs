//! Gateway configuration: the ordered route table and the authorization
//! endpoint.

use vstd::prelude::*;
use regex::Regex;
use crate::pattern::{pattern_valid, regex_pattern, regex_compile};

verus! {

/// One configured routing rule: requests whose path matches `path` are
/// forwarded to `target_service:target_port`. When `authentication_required`
/// is absent it defaults to true.
pub struct ServiceConfig {
    pub path: Regex,
    pub target_service: String,
    pub target_port: String,
    pub authentication_required: Option<bool>,
}

/// Why a route could not be built from its plain description.
pub enum ConfigError {
    InvalidPattern,
}

impl ServiceConfig {
    /// Whether requests routed by this rule must first be authorized.
    /// Absent means required.
    pub open spec fn auth_required(&self) -> bool {
        self.authentication_required != Some(false)
    }

    /// Builds a rule from its plain description, compiling the path pattern.
    /// Succeeds exactly when the pattern is valid regular-expression syntax.
    pub fn new(
        pattern: &str,
        target_service: String,
        target_port: String,
        authentication_required: Option<bool>,
    ) -> (r: Result<ServiceConfig, ConfigError>)
        ensures
            r is Ok <==> pattern_valid(pattern@),
            r matches Ok(c) ==> {
                &&& regex_pattern(c.path) == pattern@
                &&& c.target_service == target_service
                &&& c.target_port == target_port
                &&& c.authentication_required == authentication_required
            },
            r is Err ==> (r matches Err(e) && e == ConfigError::InvalidPattern),
    {
        match regex_compile(pattern) {
            Some(re) => Ok(ServiceConfig {
                path: re,
                target_service,
                target_port,
                authentication_required,
            }),
            None => Err(ConfigError::InvalidPattern),
        }
    }
}

/// The whole gateway configuration: the authorization endpoint and the
/// ordered sequence of routes. Order is significant: the first matching
/// route wins.
pub struct GatewayConfig {
    pub authorization_api_url: String,
    pub services: Vec<ServiceConfig>,
}

} // verus!
