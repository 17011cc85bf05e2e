use envoyctl::{
    filter_chain_http, find_gap, gen_admin, gen_cluster, gen_clusters, gen_http_80_listener,
    gen_https_443_sni_listener, gen_internal_http_listener, gen_listeners, generate_envoy_yaml,
    header_value_option, http_connection_manager, http_connection_manager_with_domain,
    http_filter_grpc_web, http_filter_local_ratelimit_default, http_filter_router,
    http_filter_router_with_aws_signing, match_to_value, resolve, route_config_single_vhost,
    route_from_spec, route_prefix_to_cluster, stdout_access_log, tcp_proxy_filter,
    downstream_tls_socket, AccessLogSpec, AdminSpec, AwsSigningSpec, DefaultsSpec,
    DirectResponseSpec, DomainSpec, Endpoint, HeaderMatcher, HeaderValue, HeaderValueOption,
    HttpConnectionManagerSpec, HttpFilterSpec, InternalHttpListenerSpec, InvariantViolation,
    ListenersSpec, Loaded, MatchSpec, PerFilterConfigRef, PoliciesSpec, RouteSpec, TlsSpec,
    TokenBucket, UpstreamSpec, ValidateSpec,
};
use indexmap::IndexMap;
use serde_yaml::{Mapping, Value};

/* ---------------- helpers ---------------- */

fn yaml(v: &Value) -> String {
    serde_yaml::to_string(v).unwrap()
}

fn parsed(text: &str) -> Value {
    serde_yaml::from_str(text).unwrap()
}

fn at<'a>(v: &'a Value, key: &str) -> &'a Value {
    match v {
        Value::Mapping(m) => match m.get(key) {
            Some(x) => x,
            None => panic!("no key {} in {:?}", key, v),
        },
        _ => panic!("not a mapping: {:?}", v),
    }
}

fn item(v: &Value, i: usize) -> &Value {
    match v {
        Value::Sequence(s) => &s[i],
        _ => panic!("not a sequence: {:?}", v),
    }
}

fn len(v: &Value) -> usize {
    match v {
        Value::Sequence(s) => s.len(),
        _ => panic!("not a sequence: {:?}", v),
    }
}

fn keys(v: &Value) -> Vec<String> {
    match v {
        Value::Mapping(m) => m
            .keys()
            .map(|k| match k {
                Value::String(s) => s.clone(),
                _ => panic!("a key that is no string"),
            })
            .collect(),
        _ => panic!("not a mapping: {:?}", v),
    }
}

fn text(s: &str) -> Value {
    Value::String(s.to_string())
}

fn log() -> AccessLogSpec {
    AccessLogSpec {
        type_: "stdout".to_string(),
        path: "/dev/stdout".to_string(),
    }
}

fn defaults() -> DefaultsSpec {
    DefaultsSpec {
        route_timeout: "60s".to_string(),
        http_default_upstream: "default_http".to_string(),
        tls_passthrough_upstream: "default_tls".to_string(),
    }
}

fn upstream(name: &str, port: u16) -> UpstreamSpec {
    UpstreamSpec {
        name: name.to_string(),
        connect_timeout: "5s".to_string(),
        type_: "STATIC".to_string(),
        lb_policy: "ROUND_ROBIN".to_string(),
        http2: false,
        endpoints: vec![Endpoint {
            address: "127.0.0.1".to_string(),
            port,
        }],
    }
}

fn route(prefix: &str, upstream: &str) -> RouteSpec {
    RouteSpec {
        m: MatchSpec {
            prefix: Some(prefix.to_string()),
            path: None,
            headers: vec![],
        },
        to_upstream: Some(upstream.to_string()),
        timeout: None,
        per_filter_config: None,
        prefix_rewrite: None,
        direct_response: None,
    }
}

fn limited(prefix: &str, upstream: &str, policy: &str) -> RouteSpec {
    let mut r = route(prefix, upstream);
    r.per_filter_config = Some(PerFilterConfigRef {
        local_ratelimit: Some(policy.to_string()),
    });
    r
}

fn domain(name: &str, routes: Vec<RouteSpec>) -> DomainSpec {
    DomainSpec {
        domain: name.to_string(),
        mode: "terminate_https_443".to_string(),
        tls: Some(TlsSpec {
            cert_chain: format!("/certs/{}.crt", name),
            private_key: format!("/certs/{}.key", name),
        }),
        routes,
        http_connection_manager: None,
        normalize_path: None,
        merge_slashes: None,
        aws_signing: None,
    }
}

fn overrides() -> HttpConnectionManagerSpec {
    HttpConnectionManagerSpec {
        stat_prefix: None,
        normalize_path: None,
        merge_slashes: None,
        use_remote_address: None,
        xff_num_trusted_hops: None,
        stream_idle_timeout: None,
        local_ratelimit_stat_prefix: None,
        extra_http_filters: vec![],
    }
}

fn signing() -> AwsSigningSpec {
    AwsSigningSpec {
        enabled: true,
        service_name: "s3".to_string(),
        region: "garage".to_string(),
        use_unsigned_payload: true,
        use_env_credentials: true,
    }
}

fn bucket(max: u32, per_fill: u32, interval: &str, stat_prefix: Option<&str>) -> TokenBucket {
    TokenBucket {
        max_tokens: max,
        tokens_per_fill: per_fill,
        fill_interval: interval.to_string(),
        stat_prefix: stat_prefix.map(|s| s.to_string()),
    }
}

fn policies(entries: Vec<(&str, TokenBucket)>) -> PoliciesSpec {
    let mut map = IndexMap::new();
    for (name, b) in entries {
        map.insert(name.to_string(), b);
    }
    PoliciesSpec {
        local_ratelimits: map,
    }
}

fn loaded(domains: Vec<DomainSpec>, upstreams: Vec<UpstreamSpec>, p: PoliciesSpec) -> Loaded {
    Loaded {
        admin: AdminSpec {
            address: "0.0.0.0".to_string(),
            port: 9901,
        },
        defaults: defaults(),
        access_log: log(),
        validate: ValidateSpec::DockerImage {
            image: "envoyproxy/envoy:v1.31-latest".to_string(),
        },
        listeners: ListenersSpec::default(),
        domains,
        upstreams,
        policies: p,
    }
}

fn tls_listener(doc: &Value) -> &Value {
    item(at(at(doc, "static_resources"), "listeners"), 1)
}

/// The connection manager of chain `i` of the TLS listener.
fn chain_hcm(doc: &Value, i: usize) -> &Value {
    let chain = item(at(tls_listener(doc), "filter_chains"), i);
    at(item(at(chain, "filters"), 0), "typed_config")
}

fn filter_names(hcm: &Value) -> Vec<String> {
    let filters = at(hcm, "http_filters");
    (0..len(filters))
        .map(|i| match at(item(filters, i), "name") {
            Value::String(s) => s.clone(),
            _ => panic!("a filter name that is no string"),
        })
        .collect()
}

const ROUTER: &str = "envoy.filters.http.router";
const RATE_LIMIT: &str = "envoy.filters.http.local_ratelimit";
const GRPC_WEB: &str = "envoy.filters.http.grpc_web";

/* ---------------- building blocks ---------------- */

#[test]
fn test_socket_addr_is_a_structured_triple() {
    let v = envoyctl::socket_addr("UDP", "10.0.0.1", 65535);
    assert_eq!(
        yaml(&v),
        "socket_address:\n  protocol: UDP\n  address: 10.0.0.1\n  port_value: 65535\n"
    );
    assert_eq!(
        yaml(&envoyctl::socket_addr("TCP", "::", 0)),
        "socket_address:\n  protocol: TCP\n  address: '::'\n  port_value: 0\n"
    );
}

#[test]
fn test_stdout_access_log() {
    let v = stdout_access_log(&AccessLogSpec {
        type_: "file".to_string(),
        path: "/var/log/envoy/access.log".to_string(),
    });
    assert_eq!(
        yaml(&v),
        "- name: envoy.access_loggers.file\n  typed_config:\n    '@type': type.googleapis.com/envoy.extensions.access_loggers.file.v3.FileAccessLog\n    path: /var/log/envoy/access.log\n"
    );
}

#[test]
fn test_gen_admin() {
    let v = gen_admin(
        &AdminSpec {
            address: "127.0.0.1".to_string(),
            port: 9000,
        },
        &log(),
    );
    assert_eq!(keys(&v), vec!["access_log", "address"]);
    assert_eq!(at(&v, "access_log"), &stdout_access_log(&log()));
    assert_eq!(at(&v, "address"), &envoyctl::socket_addr("TCP", "127.0.0.1", 9000));
}

#[test]
fn test_route_prefix_to_cluster() {
    let v = route_prefix_to_cluster("/", "web", Some("15s".to_string()));
    assert_eq!(
        yaml(&v),
        "match:\n  prefix: /\nroute:\n  cluster: web\n  timeout: 15s\n"
    );
    let v = route_prefix_to_cluster("/x", "web", None);
    assert_eq!(yaml(&v), "match:\n  prefix: /x\nroute:\n  cluster: web\n");
}

#[test]
fn test_http_filter_router() {
    assert_eq!(
        yaml(&http_filter_router()),
        "name: envoy.filters.http.router\ntyped_config:\n  '@type': type.googleapis.com/envoy.extensions.filters.http.router.v3.Router\n"
    );
}

#[test]
fn test_http_filter_grpc_web() {
    assert_eq!(
        yaml(&http_filter_grpc_web()),
        "name: envoy.filters.http.grpc_web\ntyped_config:\n  '@type': type.googleapis.com/envoy.extensions.filters.http.grpc_web.v3.GrpcWeb\n"
    );
}

#[test]
fn test_http_filter_local_ratelimit_default() {
    assert_eq!(
        yaml(&http_filter_local_ratelimit_default("edge_rl")),
        "name: envoy.filters.http.local_ratelimit\ntyped_config:\n  '@type': type.googleapis.com/envoy.extensions.filters.http.local_ratelimit.v3.LocalRateLimit\n  stat_prefix: edge_rl\n"
    );
}

#[test]
fn test_http_filter_router_with_aws_signing() {
    let v = http_filter_router_with_aws_signing(&signing());
    let expected = parsed(
        "name: envoy.filters.http.router
typed_config:
  '@type': type.googleapis.com/envoy.extensions.filters.http.router.v3.Router
  upstream_http_filters:
  - name: envoy.filters.http.aws_request_signing
    typed_config:
      '@type': type.googleapis.com/envoy.extensions.filters.http.aws_request_signing.v3.AwsRequestSigning
      service_name: s3
      region: garage
      use_unsigned_payload: true
      credential_provider:
        custom_credential_provider_chain: true
        environment_credential_provider: {}
  - name: envoy.filters.http.upstream_codec
    typed_config:
      '@type': type.googleapis.com/envoy.extensions.filters.http.upstream_codec.v3.UpstreamCodec
",
    );
    assert_eq!(v, expected);
    assert_eq!(yaml(&v), yaml(&expected));
}

#[test]
fn test_signing_without_env_credentials_has_no_credential_provider() {
    let mut s = signing();
    s.use_env_credentials = false;
    s.use_unsigned_payload = false;
    s.service_name = "execute-api".to_string();
    s.region = "eu-west-1".to_string();
    let v = http_filter_router_with_aws_signing(&s);
    let signer = at(item(at(at(&v, "typed_config"), "upstream_http_filters"), 0), "typed_config");
    assert_eq!(
        keys(signer),
        vec!["@type", "service_name", "region", "use_unsigned_payload"]
    );
    assert_eq!(at(signer, "service_name"), &text("execute-api"));
    assert_eq!(at(signer, "region"), &text("eu-west-1"));
    assert_eq!(at(signer, "use_unsigned_payload"), &Value::Bool(false));
}

#[test]
fn test_header_value_option() {
    let with_action = HeaderValueOption {
        header: HeaderValue {
            key: "x-internal".to_string(),
            value: "1".to_string(),
        },
        append_action: Some("OVERWRITE_IF_EXISTS_OR_ADD".to_string()),
    };
    assert_eq!(
        yaml(&header_value_option(&with_action)),
        "header:\n  key: x-internal\n  value: '1'\nappend_action: OVERWRITE_IF_EXISTS_OR_ADD\n"
    );
    let without = HeaderValueOption {
        header: HeaderValue {
            key: "k".to_string(),
            value: "v".to_string(),
        },
        append_action: None,
    };
    assert_eq!(yaml(&header_value_option(&without)), "header:\n  key: k\n  value: v\n");
}

#[test]
fn test_tcp_proxy_filter() {
    let v = Value::Mapping(tcp_proxy_filter("external_tls_passthrough", "default_tls"));
    assert_eq!(
        yaml(&v),
        "name: envoy.filters.network.tcp_proxy\ntyped_config:\n  '@type': type.googleapis.com/envoy.extensions.filters.network.tcp_proxy.v3.TcpProxy\n  stat_prefix: external_tls_passthrough\n  cluster: default_tls\n"
    );
}

#[test]
fn test_filter_chain_http() {
    let v = Value::Mapping(filter_chain_http(text("the connection manager")));
    assert_eq!(
        yaml(&v),
        "filters:\n- name: envoy.filters.network.http_connection_manager\n  typed_config: the connection manager\n"
    );
}

#[test]
fn test_downstream_tls_socket() {
    let v = downstream_tls_socket(&TlsSpec {
        cert_chain: "/etc/tls/chain.pem".to_string(),
        private_key: "/etc/tls/key.pem".to_string(),
    });
    assert_eq!(
        yaml(&v),
        "name: envoy.transport_sockets.tls
typed_config:
  '@type': type.googleapis.com/envoy.extensions.transport_sockets.tls.v3.DownstreamTlsContext
  common_tls_context:
    tls_certificates:
    - certificate_chain:
        filename: /etc/tls/chain.pem
      private_key:
        filename: /etc/tls/key.pem
"
    );
}

#[test]
fn test_route_config_single_vhost() {
    let v = route_config_single_vhost(
        "r",
        "vh",
        vec!["a.example", "b.example"],
        vec![text("route one"), text("route two")],
        None,
    );
    assert_eq!(
        yaml(&v),
        "name: r\nvirtual_hosts:\n- name: vh\n  domains:\n  - a.example\n  - b.example\n  routes:\n  - route one\n  - route two\n"
    );
}

#[test]
fn test_route_config_leaves_out_an_empty_header_list() {
    let none: Vec<HeaderValueOption> = vec![];
    let v = route_config_single_vhost("r", "vh", vec!["*"], vec![], Some(&none));
    assert_eq!(
        keys(item(at(&v, "virtual_hosts"), 0)),
        vec!["name", "domains", "routes"]
    );
    let some = vec![HeaderValueOption {
        header: HeaderValue {
            key: "k".to_string(),
            value: "v".to_string(),
        },
        append_action: None,
    }];
    let v = route_config_single_vhost("r", "vh", vec!["*"], vec![], Some(&some));
    let vhost = item(at(&v, "virtual_hosts"), 0);
    assert_eq!(
        keys(vhost),
        vec!["name", "domains", "request_headers_to_add", "routes"]
    );
    assert_eq!(
        item(at(vhost, "request_headers_to_add"), 0),
        &header_value_option(&some[0])
    );
}

/* ---------------- routes ---------------- */

#[test]
fn test_match_prefix_wins_over_path() {
    let m = MatchSpec {
        prefix: Some("/p".to_string()),
        path: Some("/exact".to_string()),
        headers: vec![],
    };
    assert_eq!(yaml(&match_to_value(&m)), "prefix: /p\n");
}

#[test]
fn test_match_without_path_part() {
    assert_eq!(yaml(&match_to_value(&MatchSpec::default())), "{}\n");
}

#[test]
fn test_match_with_headers() {
    let m = MatchSpec {
        prefix: None,
        path: Some("/health".to_string()),
        headers: vec![
            HeaderMatcher {
                name: "x-env".to_string(),
                exact_match: Some("prod".to_string()),
            },
            HeaderMatcher {
                name: "x-any".to_string(),
                exact_match: None,
            },
        ],
    };
    assert_eq!(
        yaml(&match_to_value(&m)),
        "path: /health\nheaders:\n- name: x-env\n  exact_match: prod\n- name: x-any\n"
    );
}

#[test]
fn test_route_with_prefix_and_destination() {
    let v = route_from_spec(&route("/api", "api_backend"), &defaults(), &policies(vec![]));
    assert_eq!(at(&v, "match"), &parsed("{prefix: /api}"));
    assert_eq!(at(at(&v, "route"), "cluster"), &text("api_backend"));
    assert_eq!(
        yaml(&v),
        "match:\n  prefix: /api\nroute:\n  cluster: api_backend\n  timeout: 60s\n"
    );
}

#[test]
fn test_route_timeout_is_its_own_or_the_default() {
    let mut r = route("/", "web");
    r.timeout = Some("5s".to_string());
    let v = route_from_spec(&r, &defaults(), &policies(vec![]));
    assert_eq!(at(at(&v, "route"), "timeout"), &text("5s"));
    r.timeout = None;
    let v = route_from_spec(&r, &defaults(), &policies(vec![]));
    assert_eq!(at(at(&v, "route"), "timeout"), &text("60s"));
}

#[test]
fn test_route_with_prefix_rewrite() {
    let mut r = route("/old/", "web");
    r.prefix_rewrite = Some("/new/".to_string());
    let v = route_from_spec(&r, &defaults(), &policies(vec![]));
    assert_eq!(
        yaml(at(&v, "route")),
        "cluster: web\ntimeout: 60s\nprefix_rewrite: /new/\n"
    );
}

#[test]
fn test_route_without_upstream_has_no_cluster() {
    let mut r = route("/", "web");
    r.to_upstream = None;
    let v = route_from_spec(&r, &defaults(), &policies(vec![]));
    assert_eq!(yaml(at(&v, "route")), "timeout: 60s\n");
}

#[test]
fn test_direct_response_wins_over_everything_else() {
    let mut r = limited("/health", "web", "no_such_policy");
    r.timeout = Some("1s".to_string());
    r.prefix_rewrite = Some("/x".to_string());
    r.direct_response = Some(DirectResponseSpec {
        status: 200,
        body: Some("ok".to_string()),
    });
    let v = route_from_spec(&r, &defaults(), &policies(vec![]));
    assert_eq!(
        yaml(&v),
        "match:\n  prefix: /health\ndirect_response:\n  status: 200\n  body:\n    inline_string: ok\n"
    );
}

#[test]
fn test_direct_response_without_body() {
    let mut r = route("/gone", "web");
    r.direct_response = Some(DirectResponseSpec {
        status: 410,
        body: None,
    });
    let v = route_from_spec(&r, &defaults(), &policies(vec![]));
    assert_eq!(keys(&v), vec!["match", "direct_response"]);
    assert_eq!(yaml(at(&v, "direct_response")), "status: 410\n");
}

#[test]
fn test_route_with_rate_limit_policy() {
    let p = policies(vec![
        ("other", bucket(1, 1, "60s", None)),
        ("strict", bucket(100, 50, "1s", None)),
    ]);
    let v = route_from_spec(&limited("/api", "web", "strict"), &defaults(), &p);
    assert_eq!(keys(&v), vec!["match", "route", "typed_per_filter_config"]);
    assert_eq!(
        yaml(at(&v, "typed_per_filter_config")),
        "envoy.filters.http.local_ratelimit:
  '@type': type.googleapis.com/envoy.extensions.filters.http.local_ratelimit.v3.LocalRateLimit
  stat_prefix: rl_strict
  token_bucket:
    max_tokens: 100
    tokens_per_fill: 50
    fill_interval: 1s
"
    );
}

#[test]
fn test_rate_limit_stat_prefix_of_the_policy() {
    let p = policies(vec![("strict", bucket(4294967295, 0, "250ms", Some("api_limit")))]);
    let v = route_from_spec(&limited("/api", "web", "strict"), &defaults(), &p);
    let cfg = at(at(&v, "typed_per_filter_config"), RATE_LIMIT);
    assert_eq!(at(cfg, "stat_prefix"), &text("api_limit"));
    assert_eq!(
        at(at(cfg, "token_bucket"), "max_tokens"),
        &Value::Number(4294967295u64.into())
    );
    assert_eq!(at(at(cfg, "token_bucket"), "tokens_per_fill"), &Value::Number(0u64.into()));
}

#[test]
fn test_per_filter_config_without_a_policy_name() {
    let mut r = route("/", "web");
    r.per_filter_config = Some(PerFilterConfigRef {
        local_ratelimit: None,
    });
    let v = route_from_spec(&r, &defaults(), &policies(vec![]));
    assert_eq!(keys(&v), vec!["match", "route"]);
}

/* ---------------- HTTP connection manager ---------------- */

#[test]
fn test_connection_manager_defaults() {
    let v = http_connection_manager("edge", &log(), text("rc"), vec![http_filter_router()], None);
    assert_eq!(
        keys(&v),
        vec![
            "@type",
            "stat_prefix",
            "normalize_path",
            "merge_slashes",
            "access_log",
            "route_config",
            "http_filters"
        ]
    );
    assert_eq!(
        at(&v, "@type"),
        &text("type.googleapis.com/envoy.extensions.filters.network.http_connection_manager.v3.HttpConnectionManager")
    );
    assert_eq!(at(&v, "stat_prefix"), &text("edge"));
    assert_eq!(at(&v, "normalize_path"), &Value::Bool(true));
    assert_eq!(at(&v, "merge_slashes"), &Value::Bool(true));
    assert_eq!(at(&v, "access_log"), &stdout_access_log(&log()));
    assert_eq!(at(&v, "route_config"), &text("rc"));
    assert_eq!(at(&v, "http_filters"), &Value::Sequence(vec![http_filter_router()]));
}

#[test]
fn test_connection_manager_overrides() {
    let mut o = overrides();
    o.stat_prefix = Some("custom".to_string());
    o.normalize_path = Some(false);
    o.merge_slashes = Some(false);
    o.use_remote_address = Some(true);
    o.xff_num_trusted_hops = Some(2);
    o.stream_idle_timeout = Some("300s".to_string());
    let v = http_connection_manager("edge", &log(), text("rc"), vec![], Some(&o));
    assert_eq!(
        keys(&v),
        vec![
            "@type",
            "stat_prefix",
            "normalize_path",
            "merge_slashes",
            "use_remote_address",
            "xff_num_trusted_hops",
            "stream_idle_timeout",
            "access_log",
            "route_config",
            "http_filters"
        ]
    );
    assert_eq!(at(&v, "stat_prefix"), &text("custom"));
    assert_eq!(at(&v, "normalize_path"), &Value::Bool(false));
    assert_eq!(at(&v, "merge_slashes"), &Value::Bool(false));
    assert_eq!(at(&v, "use_remote_address"), &Value::Bool(true));
    assert_eq!(at(&v, "xff_num_trusted_hops"), &Value::Number(2u64.into()));
    assert_eq!(at(&v, "stream_idle_timeout"), &text("300s"));
}

#[test]
fn test_domain_value_wins_over_override() {
    let mut o = overrides();
    o.normalize_path = Some(true);
    o.merge_slashes = Some(false);
    let v = http_connection_manager_with_domain(
        "edge",
        &log(),
        text("rc"),
        vec![],
        Some(&o),
        Some(false),
        Some(true),
        None,
    );
    assert_eq!(at(&v, "normalize_path"), &Value::Bool(false));
    assert_eq!(at(&v, "merge_slashes"), &Value::Bool(true));
    let v = http_connection_manager_with_domain(
        "edge",
        &log(),
        text("rc"),
        vec![],
        None,
        Some(false),
        None,
        None,
    );
    assert_eq!(at(&v, "normalize_path"), &Value::Bool(false));
    assert_eq!(at(&v, "merge_slashes"), &Value::Bool(true));
}

#[test]
fn test_resolve_in_priority_order() {
    assert_eq!(resolve(&[Some(1), Some(2)], 3), 1);
    assert_eq!(resolve(&[None, Some(2)], 3), 2);
    assert_eq!(resolve(&[None, None], 3), 3);
    assert_eq!(resolve(&[Some(false), None], true), false);
    assert_eq!(resolve(&[None, None, Some("third"), Some("fourth")], "default"), "third");
    assert_eq!(resolve(&[], 'd'), 'd');
}

#[test]
fn test_signing_replaces_the_router_only() {
    let other = parsed("{name: something.else, typed_config: {a: 1}}");
    let unnamed = parsed("{typed_config: {}}");
    let not_a_mapping = text("envoy.filters.http.router");
    let name_is_no_string = parsed("{name: [envoy.filters.http.router]}");
    let filters = vec![
        http_filter_local_ratelimit_default("p"),
        other.clone(),
        unnamed.clone(),
        not_a_mapping.clone(),
        name_is_no_string.clone(),
        http_filter_grpc_web(),
        http_filter_router(),
    ];
    let s = signing();
    let v = http_connection_manager_with_domain(
        "edge",
        &log(),
        text("rc"),
        filters,
        None,
        None,
        None,
        Some(&s),
    );
    assert_eq!(
        at(&v, "http_filters"),
        &Value::Sequence(vec![
            http_filter_local_ratelimit_default("p"),
            other,
            unnamed,
            not_a_mapping,
            name_is_no_string,
            http_filter_grpc_web(),
            http_filter_router_with_aws_signing(&s),
        ])
    );
}

#[test]
fn test_disabled_signing_changes_nothing() {
    let mut s = signing();
    s.enabled = false;
    let v = http_connection_manager_with_domain(
        "edge",
        &log(),
        text("rc"),
        vec![http_filter_router()],
        None,
        None,
        None,
        Some(&s),
    );
    assert_eq!(at(&v, "http_filters"), &Value::Sequence(vec![http_filter_router()]));
}

/* ---------------- clusters ---------------- */

#[test]
fn test_gen_cluster() {
    let mut u = upstream("api_backend", 8080);
    u.endpoints.push(Endpoint {
        address: "10.0.0.2".to_string(),
        port: 8081,
    });
    let v = Value::Mapping(gen_cluster(&u));
    assert_eq!(
        yaml(&v),
        "name: api_backend
connect_timeout: 5s
type: STATIC
lb_policy: ROUND_ROBIN
load_assignment:
  cluster_name: api_backend
  endpoints:
  - lb_endpoints:
    - endpoint:
        address:
          socket_address:
            protocol: TCP
            address: 127.0.0.1
            port_value: 8080
    - endpoint:
        address:
          socket_address:
            protocol: TCP
            address: 10.0.0.2
            port_value: 8081
"
    );
}

#[test]
fn test_gen_cluster_with_http2() {
    let mut u = upstream("grpc", 50051);
    u.http2 = true;
    let v = Value::Mapping(gen_cluster(&u));
    assert_eq!(
        keys(&v),
        vec![
            "name",
            "connect_timeout",
            "type",
            "lb_policy",
            "http2_protocol_options",
            "load_assignment"
        ]
    );
    assert_eq!(at(&v, "http2_protocol_options"), &Value::Mapping(Mapping::new()));
}

fn cluster_names(clusters: &Value) -> Vec<String> {
    (0..len(clusters))
        .map(|i| match at(item(clusters, i), "name") {
            Value::String(s) => s.clone(),
            _ => panic!("a cluster name that is no string"),
        })
        .collect()
}

#[test]
fn test_clusters_are_sorted_by_name() {
    let ups = vec![
        upstream("zeta", 1),
        upstream("alpha", 2),
        upstream("mid", 3),
        upstream("Beta", 4),
        upstream("alpha2", 5),
        upstream("", 6),
    ];
    let v = gen_clusters(&ups);
    assert_eq!(
        cluster_names(&v),
        vec!["", "Beta", "alpha", "alpha2", "mid", "zeta"]
    );
}

#[test]
fn test_clusters_do_not_depend_on_input_order() {
    let a = vec![upstream("c", 3), upstream("a", 1), upstream("b", 2)];
    let b = vec![upstream("b", 2), upstream("c", 3), upstream("a", 1)];
    let c = vec![upstream("a", 1), upstream("b", 2), upstream("c", 3)];
    assert_eq!(gen_clusters(&a), gen_clusters(&b));
    assert_eq!(yaml(&gen_clusters(&a)), yaml(&gen_clusters(&c)));
    assert_eq!(cluster_names(&gen_clusters(&b)), vec!["a", "b", "c"]);
}

#[test]
fn test_clusters_of_one_name_keep_their_order() {
    let ups = vec![upstream("same", 2), upstream("a", 9), upstream("same", 1)];
    let v = gen_clusters(&ups);
    assert_eq!(cluster_names(&v), vec!["a", "same", "same"]);
    assert_eq!(item(&v, 1), &Value::Mapping(gen_cluster(&ups[0])));
    assert_eq!(item(&v, 2), &Value::Mapping(gen_cluster(&ups[2])));
}

#[test]
fn test_no_upstreams_no_clusters() {
    assert_eq!(gen_clusters(&[]), Value::Sequence(vec![]));
}

/* ---------------- listeners ---------------- */

#[test]
fn test_gen_http_80_listener() {
    let v = Value::Mapping(gen_http_80_listener(&defaults(), &log()));
    assert_eq!(keys(&v), vec!["name", "address", "filter_chains"]);
    assert_eq!(at(&v, "name"), &text("http_listener"));
    assert_eq!(at(&v, "address"), &envoyctl::socket_addr("TCP", "0.0.0.0", 80));
    assert_eq!(len(at(&v, "filter_chains")), 1);
    let hcm = at(
        item(at(item(at(&v, "filter_chains"), 0), "filters"), 0),
        "typed_config",
    );
    assert_eq!(at(hcm, "stat_prefix"), &text("external_http"));
    assert_eq!(filter_names(hcm), vec![ROUTER]);
    assert_eq!(
        yaml(at(hcm, "route_config")),
        "name: external_http_route
virtual_hosts:
- name: all_hosts
  domains:
  - '*'
  routes:
  - match:
      prefix: /
    route:
      cluster: default_http
      timeout: 60s
"
    );
}

#[test]
fn test_gen_internal_http_listener() {
    let internal = InternalHttpListenerSpec {
        name: "metrics".to_string(),
        address: "127.0.0.1".to_string(),
        port: 9100,
        stat_prefix: "internal_metrics".to_string(),
        domains: vec!["metrics.local".to_string(), "stats.local".to_string()],
        to_upstream: "prometheus".to_string(),
        timeout: Some("5s".to_string()),
        request_headers_to_add: vec![HeaderValueOption {
            header: HeaderValue {
                key: "x-internal".to_string(),
                value: "internal".to_string(),
            },
            append_action: None,
        }],
    };
    let v = Value::Mapping(gen_internal_http_listener(&defaults(), &log(), &internal));
    assert_eq!(at(&v, "name"), &text("metrics"));
    assert_eq!(at(&v, "address"), &envoyctl::socket_addr("TCP", "127.0.0.1", 9100));
    let hcm = at(
        item(at(item(at(&v, "filter_chains"), 0), "filters"), 0),
        "typed_config",
    );
    assert_eq!(at(hcm, "stat_prefix"), &text("internal_metrics"));
    assert_eq!(filter_names(hcm), vec![ROUTER]);
    assert_eq!(
        yaml(at(hcm, "route_config")),
        "name: metrics_route
virtual_hosts:
- name: metrics_vhost
  domains:
  - metrics.local
  - stats.local
  request_headers_to_add:
  - header:
      key: x-internal
      value: internal
  routes:
  - match:
      prefix: /
    route:
      cluster: prometheus
      timeout: 5s
"
    );
}

#[test]
fn test_internal_listener_falls_back_to_the_default_timeout() {
    let internal = InternalHttpListenerSpec {
        name: "int".to_string(),
        address: "0.0.0.0".to_string(),
        port: 8081,
        stat_prefix: "int".to_string(),
        domains: vec![],
        to_upstream: "up".to_string(),
        timeout: None,
        request_headers_to_add: vec![],
    };
    let v = Value::Mapping(gen_internal_http_listener(&defaults(), &log(), &internal));
    let hcm = at(
        item(at(item(at(&v, "filter_chains"), 0), "filters"), 0),
        "typed_config",
    );
    let vhost = item(at(at(hcm, "route_config"), "virtual_hosts"), 0);
    assert_eq!(keys(vhost), vec!["name", "domains", "routes"]);
    assert_eq!(at(vhost, "domains"), &Value::Sequence(vec![]));
    assert_eq!(
        at(at(item(at(vhost, "routes"), 0), "route"), "timeout"),
        &text("60s")
    );
}

#[test]
fn test_tls_listener_without_domains() {
    let v = Value::Mapping(gen_https_443_sni_listener(
        &defaults(),
        &log(),
        &[],
        &policies(vec![]),
    ));
    assert_eq!(
        yaml(&v),
        "name: https_sni_listener
address:
  socket_address:
    protocol: TCP
    address: 0.0.0.0
    port_value: 443
listener_filters:
- name: envoy.filters.listener.tls_inspector
  typed_config:
    '@type': type.googleapis.com/envoy.extensions.filters.listener.tls_inspector.v3.TlsInspector
filter_chains:
- filters:
  - name: envoy.filters.network.tcp_proxy
    typed_config:
      '@type': type.googleapis.com/envoy.extensions.filters.network.tcp_proxy.v3.TcpProxy
      stat_prefix: external_tls_passthrough
      cluster: default_tls
"
    );
}

#[test]
fn test_zero_domains_give_two_listeners_and_one_chain_without_match() {
    let l = loaded(
        vec![],
        vec![upstream("default_http", 8080), upstream("default_tls", 8443)],
        policies(vec![]),
    );
    let doc = generate_envoy_yaml(&l).unwrap();
    let listeners = at(at(&doc, "static_resources"), "listeners");
    assert_eq!(len(listeners), 2);
    assert_eq!(at(item(listeners, 0), "name"), &text("http_listener"));
    assert_eq!(at(item(listeners, 1), "name"), &text("https_sni_listener"));
    let chains = at(item(listeners, 1), "filter_chains");
    assert_eq!(len(chains), 1);
    assert_eq!(keys(item(chains, 0)), vec!["filters"]);
}

#[test]
fn test_chains_follow_fragment_order_and_passthrough_is_last() {
    let mut pass = domain("pass.example", vec![]);
    pass.mode = "passthrough_https_443".to_string();
    pass.tls = None;
    let domains = vec![
        domain("b.example", vec![]),
        pass,
        domain("a.example", vec![]),
    ];
    let v = Value::Mapping(gen_https_443_sni_listener(
        &defaults(),
        &log(),
        &domains,
        &policies(vec![]),
    ));
    let chains = at(&v, "filter_chains");
    assert_eq!(len(chains), 3);
    assert_eq!(
        at(item(chains, 0), "filter_chain_match"),
        &parsed("{server_names: [b.example]}")
    );
    assert_eq!(
        at(item(chains, 1), "filter_chain_match"),
        &parsed("{server_names: [a.example]}")
    );
    assert_eq!(keys(item(chains, 2)), vec!["filters"]);
    assert_eq!(
        at(item(at(item(chains, 2), "filters"), 0), "name"),
        &text("envoy.filters.network.tcp_proxy")
    );
}

#[test]
fn test_terminate_chain() {
    let d = domain("api-test.example.com", vec![route("/api", "api_backend")]);
    let v = Value::Mapping(gen_https_443_sni_listener(
        &defaults(),
        &log(),
        &[d],
        &policies(vec![]),
    ));
    let chain = item(at(&v, "filter_chains"), 0);
    assert_eq!(
        keys(chain),
        vec!["filter_chain_match", "transport_socket", "filters"]
    );
    assert_eq!(
        at(chain, "transport_socket"),
        &downstream_tls_socket(&TlsSpec {
            cert_chain: "/certs/api-test.example.com.crt".to_string(),
            private_key: "/certs/api-test.example.com.key".to_string(),
        })
    );
    let filter = item(at(chain, "filters"), 0);
    assert_eq!(
        at(filter, "name"),
        &text("envoy.filters.network.http_connection_manager")
    );
    let hcm = at(filter, "typed_config");
    assert_eq!(at(hcm, "stat_prefix"), &text("api_test_example_com_https"));
    assert_eq!(
        yaml(at(hcm, "route_config")),
        "name: api_test_example_com_route
virtual_hosts:
- name: api_test_example_com_vhost
  domains:
  - api-test.example.com
  routes:
  - match:
      prefix: /api
    route:
      cluster: api_backend
      timeout: 60s
"
    );
}

#[test]
fn test_filters_without_rate_limit_are_the_router_alone() {
    let l = loaded(
        vec![domain("example.com", vec![route("/", "web"), route("/api", "api")])],
        vec![],
        policies(vec![]),
    );
    let doc = generate_envoy_yaml(&l).unwrap();
    let hcm = chain_hcm(&doc, 0);
    assert_eq!(filter_names(hcm), vec![ROUTER]);
    assert_eq!(at(hcm, "http_filters"), &Value::Sequence(vec![http_filter_router()]));
}

#[test]
fn test_filters_with_rate_limit_begin_with_the_rate_limit_filter() {
    let l = loaded(
        vec![domain(
            "example.com",
            vec![route("/", "web"), limited("/api", "api", "strict")],
        )],
        vec![],
        policies(vec![("strict", bucket(10, 10, "1s", None))]),
    );
    let doc = generate_envoy_yaml(&l).unwrap();
    let hcm = chain_hcm(&doc, 0);
    assert_eq!(filter_names(hcm), vec![RATE_LIMIT, ROUTER]);
    assert_eq!(
        at(hcm, "http_filters"),
        &Value::Sequence(vec![
            http_filter_local_ratelimit_default("default_local_ratelimit"),
            http_filter_router()
        ])
    );
}

#[test]
fn test_extra_filters_stand_between_rate_limit_and_router() {
    let mut d = domain("example.com", vec![limited("/api", "api", "strict")]);
    let mut o = overrides();
    o.local_ratelimit_stat_prefix = Some("edge_limit".to_string());
    o.extra_http_filters = vec![HttpFilterSpec::GrpcWeb, HttpFilterSpec::GrpcWeb];
    d.http_connection_manager = Some(o);
    let l = loaded(
        vec![d],
        vec![],
        policies(vec![("strict", bucket(10, 10, "1s", None))]),
    );
    let doc = generate_envoy_yaml(&l).unwrap();
    let hcm = chain_hcm(&doc, 0);
    assert_eq!(filter_names(hcm), vec![RATE_LIMIT, GRPC_WEB, GRPC_WEB, ROUTER]);
    assert_eq!(
        item(at(hcm, "http_filters"), 0),
        &http_filter_local_ratelimit_default("edge_limit")
    );
}

#[test]
fn test_extra_filter_without_rate_limit() {
    let mut d = domain("example.com", vec![route("/", "web")]);
    let mut o = overrides();
    o.extra_http_filters = vec![HttpFilterSpec::GrpcWeb];
    d.http_connection_manager = Some(o);
    let doc = generate_envoy_yaml(&loaded(vec![d], vec![], policies(vec![]))).unwrap();
    assert_eq!(filter_names(chain_hcm(&doc, 0)), vec![GRPC_WEB, ROUTER]);
}

#[test]
fn test_rate_limit_of_a_direct_response_route_still_counts() {
    let mut r = limited("/health", "web", "no_such_policy");
    r.direct_response = Some(DirectResponseSpec {
        status: 200,
        body: None,
    });
    let doc = generate_envoy_yaml(&loaded(
        vec![domain("example.com", vec![r])],
        vec![],
        policies(vec![]),
    ))
    .unwrap();
    assert_eq!(filter_names(chain_hcm(&doc, 0)), vec![RATE_LIMIT, ROUTER]);
}

#[test]
fn test_domain_with_signing() {
    let mut d = domain("s3.example.com", vec![limited("/", "garage", "strict")]);
    d.aws_signing = Some(signing());
    d.normalize_path = Some(false);
    d.merge_slashes = Some(false);
    let l = loaded(
        vec![d],
        vec![],
        policies(vec![("strict", bucket(10, 10, "1s", None))]),
    );
    let doc = generate_envoy_yaml(&l).unwrap();
    let hcm = chain_hcm(&doc, 0);
    assert_eq!(filter_names(hcm), vec![RATE_LIMIT, ROUTER]);
    assert_eq!(
        at(hcm, "http_filters"),
        &Value::Sequence(vec![
            http_filter_local_ratelimit_default("default_local_ratelimit"),
            http_filter_router_with_aws_signing(&signing()),
        ])
    );
    assert_eq!(at(hcm, "normalize_path"), &Value::Bool(false));
    assert_eq!(at(hcm, "merge_slashes"), &Value::Bool(false));
}

#[test]
fn test_gen_listeners() {
    let spec = ListenersSpec {
        internal_http_listeners: vec![
            InternalHttpListenerSpec {
                name: "one".to_string(),
                address: "127.0.0.1".to_string(),
                port: 1,
                stat_prefix: "one".to_string(),
                domains: vec!["one.local".to_string()],
                to_upstream: "u1".to_string(),
                timeout: None,
                request_headers_to_add: vec![],
            },
            InternalHttpListenerSpec {
                name: "two".to_string(),
                address: "127.0.0.1".to_string(),
                port: 2,
                stat_prefix: "two".to_string(),
                domains: vec!["two.local".to_string()],
                to_upstream: "u2".to_string(),
                timeout: None,
                request_headers_to_add: vec![],
            },
        ],
    };
    let v = gen_listeners(&defaults(), &log(), &[], &policies(vec![]), &spec);
    assert_eq!(len(&v), 4);
    assert_eq!(item(&v, 0), &Value::Mapping(gen_http_80_listener(&defaults(), &log())));
    assert_eq!(
        item(&v, 1),
        &Value::Mapping(gen_https_443_sni_listener(
            &defaults(),
            &log(),
            &[],
            &policies(vec![])
        ))
    );
    assert_eq!(
        item(&v, 2),
        &Value::Mapping(gen_internal_http_listener(
            &defaults(),
            &log(),
            &spec.internal_http_listeners[0]
        ))
    );
    assert_eq!(at(item(&v, 3), "name"), &text("two"));
}

/* ---------------- the document ---------------- */

#[test]
fn test_whole_document() {
    let l = loaded(
        vec![],
        vec![upstream("default_tls", 8443), upstream("default_http", 8080)],
        policies(vec![]),
    );
    let doc = generate_envoy_yaml(&l).unwrap();
    assert_eq!(
        yaml(&doc),
        "admin:
  access_log:
  - name: envoy.access_loggers.file
    typed_config:
      '@type': type.googleapis.com/envoy.extensions.access_loggers.file.v3.FileAccessLog
      path: /dev/stdout
  address:
    socket_address:
      protocol: TCP
      address: 0.0.0.0
      port_value: 9901
static_resources:
  listeners:
  - name: http_listener
    address:
      socket_address:
        protocol: TCP
        address: 0.0.0.0
        port_value: 80
    filter_chains:
    - filters:
      - name: envoy.filters.network.http_connection_manager
        typed_config:
          '@type': type.googleapis.com/envoy.extensions.filters.network.http_connection_manager.v3.HttpConnectionManager
          stat_prefix: external_http
          normalize_path: true
          merge_slashes: true
          access_log:
          - name: envoy.access_loggers.file
            typed_config:
              '@type': type.googleapis.com/envoy.extensions.access_loggers.file.v3.FileAccessLog
              path: /dev/stdout
          route_config:
            name: external_http_route
            virtual_hosts:
            - name: all_hosts
              domains:
              - '*'
              routes:
              - match:
                  prefix: /
                route:
                  cluster: default_http
                  timeout: 60s
          http_filters:
          - name: envoy.filters.http.router
            typed_config:
              '@type': type.googleapis.com/envoy.extensions.filters.http.router.v3.Router
  - name: https_sni_listener
    address:
      socket_address:
        protocol: TCP
        address: 0.0.0.0
        port_value: 443
    listener_filters:
    - name: envoy.filters.listener.tls_inspector
      typed_config:
        '@type': type.googleapis.com/envoy.extensions.filters.listener.tls_inspector.v3.TlsInspector
    filter_chains:
    - filters:
      - name: envoy.filters.network.tcp_proxy
        typed_config:
          '@type': type.googleapis.com/envoy.extensions.filters.network.tcp_proxy.v3.TcpProxy
          stat_prefix: external_tls_passthrough
          cluster: default_tls
  clusters:
  - name: default_http
    connect_timeout: 5s
    type: STATIC
    lb_policy: ROUND_ROBIN
    load_assignment:
      cluster_name: default_http
      endpoints:
      - lb_endpoints:
        - endpoint:
            address:
              socket_address:
                protocol: TCP
                address: 127.0.0.1
                port_value: 8080
  - name: default_tls
    connect_timeout: 5s
    type: STATIC
    lb_policy: ROUND_ROBIN
    load_assignment:
      cluster_name: default_tls
      endpoints:
      - lb_endpoints:
        - endpoint:
            address:
              socket_address:
                protocol: TCP
                address: 127.0.0.1
                port_value: 8443
"
    );
}

#[test]
fn test_generation_is_deterministic() {
    let make = || {
        loaded(
            vec![
                domain("a.example", vec![limited("/", "web", "p"), route("/x", "web")]),
                domain("b.example", vec![]),
            ],
            vec![upstream("web", 1), upstream("default_http", 2), upstream("default_tls", 3)],
            policies(vec![("p", bucket(1, 2, "3s", None))]),
        )
    };
    let l = make();
    let first = generate_envoy_yaml(&l).unwrap();
    let second = generate_envoy_yaml(&l).unwrap();
    assert_eq!(first, second);
    assert_eq!(yaml(&first), yaml(&second));
    let again = generate_envoy_yaml(&make()).unwrap();
    assert_eq!(yaml(&first), yaml(&again));
}

#[test]
fn test_document_keys() {
    let doc = generate_envoy_yaml(&loaded(vec![], vec![], policies(vec![]))).unwrap();
    assert_eq!(keys(&doc), vec!["admin", "static_resources"]);
    assert_eq!(keys(at(&doc, "static_resources")), vec!["listeners", "clusters"]);
}

#[test]
fn test_terminate_domain_without_tls_is_a_gap() {
    let mut d = domain("example.com", vec![]);
    d.tls = None;
    let l = loaded(vec![domain("ok.example", vec![]), d], vec![], policies(vec![]));
    match generate_envoy_yaml(&l) {
        Err(InvariantViolation::MissingTls { domain }) => assert_eq!(domain, "example.com"),
        other => panic!("expected missing TLS, got {:?}", other),
    }
    let e = find_gap(&l.domains, &l.policies).unwrap();
    assert_eq!(
        e.message(),
        "domain example.com mode terminate_https_443 requires tls block"
    );
}

#[test]
fn test_unknown_policy_is_a_gap() {
    let l = loaded(
        vec![domain(
            "example.com",
            vec![route("/", "web"), limited("/api", "web", "strict"), limited("/b", "web", "b")],
        )],
        vec![],
        policies(vec![("other", bucket(1, 1, "1s", None))]),
    );
    match generate_envoy_yaml(&l) {
        Err(InvariantViolation::UnknownRateLimitPolicy { domain, policy }) => {
            assert_eq!(domain, "example.com");
            assert_eq!(policy, "strict");
        }
        other => panic!("expected an unknown policy, got {:?}", other),
    }
    let e = find_gap(&l.domains, &l.policies).unwrap();
    assert_eq!(
        e.message(),
        "domain example.com route references unknown local_ratelimit policy strict"
    );
}

#[test]
fn test_missing_tls_comes_before_the_routes_of_the_domain() {
    let mut d = domain("example.com", vec![limited("/api", "web", "strict")]);
    d.tls = None;
    let l = loaded(vec![d], vec![], policies(vec![]));
    assert!(matches!(
        find_gap(&l.domains, &l.policies),
        Some(InvariantViolation::MissingTls { .. })
    ));
}

#[test]
fn test_domains_that_do_not_terminate_have_no_gap() {
    let mut pass = domain("pass.example", vec![limited("/", "web", "nope")]);
    pass.mode = "passthrough_https_443".to_string();
    pass.tls = None;
    let mut odd = domain("odd.example", vec![limited("/", "web", "nope")]);
    odd.mode = "something_else".to_string();
    odd.tls = None;
    let l = loaded(vec![pass, odd], vec![], policies(vec![]));
    assert!(find_gap(&l.domains, &l.policies).is_none());
    let doc = generate_envoy_yaml(&l).unwrap();
    assert_eq!(len(at(tls_listener(&doc), "filter_chains")), 1);
}
