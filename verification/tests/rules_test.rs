use envoyctl::{
    generate_envoy_yaml, validate_model, AccessLogSpec, AdminSpec, DefaultsSpec,
    DirectResponseSpec, DomainSpec, Endpoint, ListenersSpec, Loaded, MatchSpec,
    PerFilterConfigRef, PoliciesSpec, RouteSpec, TlsSpec, TokenBucket, UpstreamSpec,
    ValidateSpec, ValidationError,
};
use indexmap::IndexMap;

fn defaults() -> DefaultsSpec {
    DefaultsSpec {
        route_timeout: "60s".to_string(),
        http_default_upstream: "cilium_http".to_string(),
        tls_passthrough_upstream: "cilium_tls".to_string(),
    }
}

fn upstream(name: &str) -> UpstreamSpec {
    UpstreamSpec {
        name: name.to_string(),
        connect_timeout: "5s".to_string(),
        type_: "STRICT_DNS".to_string(),
        lb_policy: "ROUND_ROBIN".to_string(),
        http2: false,
        endpoints: vec![Endpoint {
            address: "127.0.0.1".to_string(),
            port: 80,
        }],
    }
}

fn default_upstreams() -> Vec<UpstreamSpec> {
    vec![upstream("cilium_http"), upstream("cilium_tls")]
}

fn route(upstream: Option<&str>, policy: Option<&str>) -> RouteSpec {
    RouteSpec {
        m: MatchSpec {
            prefix: Some("/".to_string()),
            path: None,
            headers: vec![],
        },
        to_upstream: upstream.map(|u| u.to_string()),
        timeout: None,
        per_filter_config: policy.map(|p| PerFilterConfigRef {
            local_ratelimit: Some(p.to_string()),
        }),
        prefix_rewrite: None,
        direct_response: None,
    }
}

fn domain(name: &str, mode: &str, tls: bool, routes: Vec<RouteSpec>) -> DomainSpec {
    DomainSpec {
        domain: name.to_string(),
        mode: mode.to_string(),
        tls: if tls {
            Some(TlsSpec {
                cert_chain: "/c".to_string(),
                private_key: "/k".to_string(),
            })
        } else {
            None
        },
        routes,
        http_connection_manager: None,
        normalize_path: None,
        merge_slashes: None,
        aws_signing: None,
    }
}

fn terminate(name: &str, routes: Vec<RouteSpec>) -> DomainSpec {
    domain(name, "terminate_https_443", true, routes)
}

fn policies(names: Vec<&str>) -> PoliciesSpec {
    let mut map = IndexMap::new();
    for name in names {
        map.insert(
            name.to_string(),
            TokenBucket {
                max_tokens: 10,
                tokens_per_fill: 10,
                fill_interval: "1s".to_string(),
                stat_prefix: None,
            },
        );
    }
    PoliciesSpec {
        local_ratelimits: map,
    }
}

fn check(
    domains: &[DomainSpec],
    upstreams: &[UpstreamSpec],
    policies: &PoliciesSpec,
) -> Result<(), ValidationError> {
    validate_model(domains, upstreams, policies, &defaults())
}

#[test]
fn test_empty_model_with_default_upstreams_is_valid() {
    assert!(check(&[], &default_upstreams(), &policies(vec![])).is_ok());
}

#[test]
fn test_passthrough_domain_needs_no_tls() {
    let domains = vec![
        domain("a.example", "passthrough_https_443", false, vec![]),
        domain("b.example", "passthrough_https_443", true, vec![]),
    ];
    assert!(check(&domains, &default_upstreams(), &policies(vec![])).is_ok());
}

#[test]
fn test_route_without_upstream_and_without_policy_is_valid() {
    let domains = vec![terminate("a.example", vec![route(None, None)])];
    assert!(check(&domains, &default_upstreams(), &policies(vec![])).is_ok());
}

#[test]
fn test_route_with_known_upstream_and_policy_is_valid() {
    let domains = vec![terminate(
        "a.example",
        vec![route(Some("cilium_http"), Some("strict"))],
    )];
    assert!(check(&domains, &default_upstreams(), &policies(vec!["strict"])).is_ok());
}

#[test]
fn test_per_filter_config_without_policy_name_is_valid() {
    let mut r = route(None, None);
    r.per_filter_config = Some(PerFilterConfigRef {
        local_ratelimit: None,
    });
    let domains = vec![terminate("a.example", vec![r])];
    assert!(check(&domains, &default_upstreams(), &policies(vec![])).is_ok());
}

#[test]
fn test_duplicate_domain_names_the_domain() {
    let domains = vec![
        terminate("a.example", vec![]),
        terminate("b.example", vec![]),
        terminate("a.example", vec![]),
    ];
    match check(&domains, &default_upstreams(), &policies(vec![])) {
        Err(ValidationError::DuplicateDomain { domain }) => assert_eq!(domain, "a.example"),
        other => panic!("expected a duplicate domain, got {:?}", other),
    }
    let e = check(&domains, &default_upstreams(), &policies(vec![])).unwrap_err();
    assert_eq!(e.message(), "duplicate domain: a.example");
}

#[test]
fn test_domain_names_differ_by_case() {
    let domains = vec![
        terminate("a.example", vec![]),
        terminate("A.example", vec![]),
    ];
    assert!(check(&domains, &default_upstreams(), &policies(vec![])).is_ok());
}

#[test]
fn test_terminate_without_tls_message() {
    let domains = vec![domain("t.example", "terminate_https_443", false, vec![])];
    let e = check(&domains, &default_upstreams(), &policies(vec![])).unwrap_err();
    assert!(matches!(e, ValidationError::TerminateWithoutTls { .. }));
    assert_eq!(
        e.message(),
        "domain t.example mode terminate_https_443 requires tls block"
    );
}

#[test]
fn test_unsupported_mode_message() {
    let domains = vec![domain("m.example", "terminate_http_80", true, vec![])];
    let e = check(&domains, &default_upstreams(), &policies(vec![])).unwrap_err();
    match &e {
        ValidationError::UnsupportedMode { domain, mode } => {
            assert_eq!(domain, "m.example");
            assert_eq!(mode, "terminate_http_80");
        }
        other => panic!("expected an unsupported mode, got {:?}", other),
    }
    assert_eq!(
        e.message(),
        "domain m.example has unsupported mode: terminate_http_80"
    );
}

#[test]
fn test_empty_mode_is_unsupported() {
    let domains = vec![DomainSpec::default()];
    assert!(matches!(
        check(&domains, &default_upstreams(), &policies(vec![])),
        Err(ValidationError::UnsupportedMode { .. })
    ));
}

#[test]
fn test_missing_http_default_upstream_message() {
    let e = check(&[], &[upstream("cilium_tls")], &policies(vec![])).unwrap_err();
    match &e {
        ValidationError::MissingHttpDefaultUpstream { upstream } => {
            assert_eq!(upstream, "cilium_http")
        }
        other => panic!("expected a missing default upstream, got {:?}", other),
    }
    assert_eq!(
        e.message(),
        "defaults.http_default_upstream 'cilium_http' does not exist in upstreams/"
    );
}

#[test]
fn test_missing_tls_passthrough_upstream_message() {
    let e = check(&[], &[upstream("cilium_http")], &policies(vec![])).unwrap_err();
    match &e {
        ValidationError::MissingTlsPassthroughUpstream { upstream } => {
            assert_eq!(upstream, "cilium_tls")
        }
        other => panic!("expected a missing passthrough upstream, got {:?}", other),
    }
    assert_eq!(
        e.message(),
        "defaults.tls_passthrough_upstream 'cilium_tls' does not exist in upstreams/"
    );
}

#[test]
fn test_http_default_is_checked_before_tls_passthrough() {
    assert!(matches!(
        check(&[], &[], &policies(vec![])),
        Err(ValidationError::MissingHttpDefaultUpstream { .. })
    ));
}

#[test]
fn test_no_endpoints_names_the_first_such_upstream() {
    let mut a = upstream("a");
    a.endpoints.clear();
    let mut b = upstream("b");
    b.endpoints.clear();
    let mut ups = default_upstreams();
    ups.push(b);
    ups.push(a);
    let e = check(&[], &ups, &policies(vec![])).unwrap_err();
    match &e {
        ValidationError::NoEndpoints { upstream } => assert_eq!(upstream, "b"),
        other => panic!("expected an upstream without endpoints, got {:?}", other),
    }
    assert_eq!(e.message(), "upstream b has no endpoints");
}

#[test]
fn test_unknown_upstream_message() {
    let domains = vec![terminate("a.example", vec![route(Some("nowhere"), None)])];
    let e = check(&domains, &default_upstreams(), &policies(vec![])).unwrap_err();
    match &e {
        ValidationError::UnknownUpstream { domain, upstream } => {
            assert_eq!(domain, "a.example");
            assert_eq!(upstream, "nowhere");
        }
        other => panic!("expected an unknown upstream, got {:?}", other),
    }
    assert_eq!(
        e.message(),
        "domain a.example route references unknown upstream nowhere"
    );
}

#[test]
fn test_unknown_policy_message() {
    let domains = vec![terminate(
        "a.example",
        vec![route(Some("cilium_http"), Some("strict"))],
    )];
    let e = check(&domains, &default_upstreams(), &policies(vec!["lenient"])).unwrap_err();
    match &e {
        ValidationError::UnknownRateLimitPolicy { domain, policy } => {
            assert_eq!(domain, "a.example");
            assert_eq!(policy, "strict");
        }
        other => panic!("expected an unknown policy, got {:?}", other),
    }
    assert_eq!(
        e.message(),
        "domain a.example route references unknown local_ratelimit policy strict"
    );
}

#[test]
fn test_references_of_a_direct_response_route_are_checked_too() {
    let mut r = route(Some("nowhere"), None);
    r.direct_response = Some(DirectResponseSpec {
        status: 204,
        body: None,
    });
    let domains = vec![terminate("a.example", vec![r])];
    assert!(matches!(
        check(&domains, &default_upstreams(), &policies(vec![])),
        Err(ValidationError::UnknownUpstream { .. })
    ));
}

#[test]
fn test_references_of_passthrough_domains_are_checked_too() {
    let domains = vec![domain(
        "p.example",
        "passthrough_https_443",
        false,
        vec![route(None, Some("strict"))],
    )];
    assert!(matches!(
        check(&domains, &default_upstreams(), &policies(vec![])),
        Err(ValidationError::UnknownRateLimitPolicy { .. })
    ));
}

#[test]
fn test_first_violation_wins_within_a_domain() {
    // A repeated name is found before the missing TLS block of that domain.
    let domains = vec![
        terminate("a.example", vec![]),
        domain("a.example", "terminate_https_443", false, vec![]),
    ];
    assert!(matches!(
        check(&domains, &default_upstreams(), &policies(vec![])),
        Err(ValidationError::DuplicateDomain { .. })
    ));
}

#[test]
fn test_first_violation_wins_across_domains() {
    // The bad mode of the first domain is found before the repeated name of
    // the third.
    let domains = vec![
        domain("x.example", "bad", false, vec![]),
        terminate("a.example", vec![]),
        terminate("a.example", vec![]),
    ];
    match check(&domains, &default_upstreams(), &policies(vec![])) {
        Err(ValidationError::UnsupportedMode { domain, .. }) => assert_eq!(domain, "x.example"),
        other => panic!("expected an unsupported mode, got {:?}", other),
    }
}

#[test]
fn test_domain_checks_come_before_upstream_checks() {
    let domains = vec![domain("t.example", "terminate_https_443", false, vec![])];
    assert!(matches!(
        check(&domains, &[], &policies(vec![])),
        Err(ValidationError::TerminateWithoutTls { .. })
    ));
}

#[test]
fn test_endpoint_checks_come_before_route_checks() {
    let mut empty = upstream("empty");
    empty.endpoints.clear();
    let mut ups = default_upstreams();
    ups.push(empty);
    let domains = vec![terminate("a.example", vec![route(Some("nowhere"), None)])];
    assert!(matches!(
        check(&domains, &ups, &policies(vec![])),
        Err(ValidationError::NoEndpoints { .. })
    ));
}

#[test]
fn test_upstream_of_a_route_is_checked_before_its_policy() {
    let domains = vec![terminate(
        "a.example",
        vec![route(Some("nowhere"), Some("nothing"))],
    )];
    assert!(matches!(
        check(&domains, &default_upstreams(), &policies(vec![])),
        Err(ValidationError::UnknownUpstream { .. })
    ));
}

#[test]
fn test_routes_are_checked_in_order() {
    let domains = vec![
        terminate(
            "a.example",
            vec![
                route(Some("cilium_http"), None),
                route(None, Some("first_missing")),
                route(Some("second_missing"), None),
            ],
        ),
        terminate("b.example", vec![route(Some("third_missing"), None)]),
    ];
    match check(&domains, &default_upstreams(), &policies(vec![])) {
        Err(ValidationError::UnknownRateLimitPolicy { domain, policy }) => {
            assert_eq!(domain, "a.example");
            assert_eq!(policy, "first_missing");
        }
        other => panic!("expected an unknown policy, got {:?}", other),
    }
}

#[test]
fn test_a_valid_model_generates() {
    let loaded = Loaded {
        admin: AdminSpec {
            address: "0.0.0.0".to_string(),
            port: 9901,
        },
        defaults: defaults(),
        access_log: AccessLogSpec {
            type_: "stdout".to_string(),
            path: "/dev/stdout".to_string(),
        },
        validate: ValidateSpec::DockerExec {
            container: "envoy".to_string(),
            config_path: "/etc/envoy/envoy.yaml".to_string(),
        },
        listeners: ListenersSpec::default(),
        domains: vec![
            terminate("a.example", vec![route(Some("cilium_http"), Some("strict"))]),
            domain("p.example", "passthrough_https_443", false, vec![]),
        ],
        upstreams: default_upstreams(),
        policies: policies(vec!["strict"]),
    };
    assert!(validate_model(
        &loaded.domains,
        &loaded.upstreams,
        &loaded.policies,
        &loaded.defaults
    )
    .is_ok());
    assert!(generate_envoy_yaml(&loaded).is_ok());
}
