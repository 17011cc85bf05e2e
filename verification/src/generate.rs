//! The document generator: from a configuration model to the bootstrap
//! document, as a `serde_yaml` value.

use crate::document::{
    access_log_yaml, admin_yaml, any_uses_rate_limit, by_precedence, cluster_yaml, clusters_of,
    clusters_yaml, domain_checks, domain_gap, domain_hcm_yaml, domain_ready, domains_ready,
    downstream_tls_yaml, envoy_yaml, extra_filter_yaml, extra_filters, extra_filters_yaml,
    filter_chains, first_gap, Gap, grpc_web_filter_yaml, hcm_yaml, header_matcher_yaml,
    header_matchers_yaml, header_value_option_yaml, header_value_options_yaml,
    http_filter_chain_yaml, http_listener_yaml, https_listener_yaml, internal_listener_yaml,
    is_router_filter, is_terminate, lb_endpoint_yaml, lb_endpoints_yaml, lemma_domains_ready,
    lemma_keys, lemma_precedence_of_one, lemma_terminate_chains_step, listeners,
    local_ratelimit_filter_yaml, match_yaml, named_config_yaml,
    override_merge_slashes, override_normalize_path, plain_http_filters, prefix_route_yaml,
    rate_limit_filters, route_checks, route_config_yaml, route_gap, route_ready, route_yaml,
    router_filter_yaml, routes_yaml, signed_filters, signing_router_filter_yaml, socket_addr_yaml,
    tcp_proxy_filter_yaml, terminate_chain_yaml, terminate_chains, texts_yaml, typed,
    uses_rate_limit,
};
use crate::first::{first_at, lemma_first_at_stays};
use crate::load::{Loaded, LoadedView};
use crate::model::{optional_view, views,
    AccessLogSpec, AdminSpec, AwsSigningSpec, DefaultsSpec, DomainSpec, HeaderMatcher,
    HeaderValueOption, HttpConnectionManagerSpec, HttpFilterSpec, InternalHttpListenerSpec,
    ListenersSpec, MatchSpec, PoliciesSpec, RouteSpec, TlsSpec, UpstreamSpec,
};
use crate::order::{order_by_name, picked};
use crate::text::{sanitize_name, str_eq};
use crate::validate::{lemma_valid_model_is_ready, model_valid};
use crate::yaml::{
    as_mapping, as_str, b, entries_of, mapping, mapping_get, n, put, s, sequence, Yaml, yaml_of,
    yamls_of,
};
use serde_yaml::{Mapping, Value};
use vstd::prelude::*;
use vstd::string::StringExecFns;

verus! {

broadcast use crate::yaml::group_yaml;

/* ---------------- building blocks ---------------- */

/// A list with one item.
fn single(item: Value) -> (v: Value)
    ensures
        yaml_of(v) == Yaml::List(Seq::empty().push(yaml_of(item))),
{
    let mut items = Vec::new();
    items.push(item);
    sequence(items)
}

/// A named extension with its typed configuration.
fn named_config(name: &str, typed_config: Mapping) -> (v: Value)
    ensures
        yaml_of(v) == named_config_yaml(name@, entries_of(typed_config)),
{
    proof {
        lemma_keys();
    }
    let mut f = Mapping::new();
    put(&mut f, "name", s(name));
    put(&mut f, "typed_config", mapping(typed_config));
    mapping(f)
}

/// A typed configuration that so far holds its type only.
fn typed_config(type_url: &str) -> (tc: Mapping)
    ensures
        entries_of(tc) == typed(type_url@),
{
    let mut tc = Mapping::new();
    put(&mut tc, "@type", s(type_url));
    tc
}

/// Encodes a socket address as the structured triple of protocol, address
/// and port.
pub fn socket_addr(protocol: &str, address: &str, port: u16) -> (v: Value)
    ensures
        yaml_of(v) == socket_addr_yaml(protocol@, address@, port),
{
    proof {
        lemma_keys();
    }
    let mut sa = Mapping::new();
    put(&mut sa, "protocol", s(protocol));
    put(&mut sa, "address", s(address));
    put(&mut sa, "port_value", n(port as u64));
    let mut a = Mapping::new();
    put(&mut a, "socket_address", mapping(sa));
    mapping(a)
}

/// The access-log list that every connection manager and the admin block
/// share.
pub fn stdout_access_log(log: &AccessLogSpec) -> (v: Value)
    ensures
        yaml_of(v) == access_log_yaml(log@),
{
    proof {
        lemma_keys();
    }
    let mut tc = typed_config("type.googleapis.com/envoy.extensions.access_loggers.file.v3.FileAccessLog");
    put(&mut tc, "path", s(log.path.as_str()));
    single(named_config("envoy.access_loggers.file", tc))
}

/// A route from a path prefix to a cluster.
pub fn route_prefix_to_cluster(prefix: &str, cluster: &str, timeout: Option<String>) -> (v: Value)
    ensures
        yaml_of(v) == prefix_route_yaml(
            prefix@,
            cluster@,
            match timeout {
                Some(t) => Some(t@),
                None => None,
            },
        ),
{
    proof {
        lemma_keys();
    }
    let mut m = Mapping::new();
    put(&mut m, "prefix", s(prefix));
    let mut r = Mapping::new();
    put(&mut r, "cluster", s(cluster));
    if let Some(t) = timeout {
        put(&mut r, "timeout", s(t.as_str()));
    }
    let mut route = Mapping::new();
    put(&mut route, "match", mapping(m));
    put(&mut route, "route", mapping(r));
    mapping(route)
}

/// The terminal routing filter.
pub fn http_filter_router() -> (v: Value)
    ensures
        yaml_of(v) == router_filter_yaml(),
{
    named_config(
        "envoy.filters.http.router",
        typed_config("type.googleapis.com/envoy.extensions.filters.http.router.v3.Router"),
    )
}

/// The routing filter that signs the requests it sends upstream, for
/// backends that expect signed requests from clients that cannot sign.
pub fn http_filter_router_with_aws_signing(signing: &AwsSigningSpec) -> (v: Value)
    ensures
        yaml_of(v) == signing_router_filter_yaml(signing@),
{
    proof {
        lemma_keys();
    }
    let mut stc = typed_config(
        "type.googleapis.com/envoy.extensions.filters.http.aws_request_signing.v3.AwsRequestSigning",
    );
    put(&mut stc, "service_name", s(signing.service_name.as_str()));
    put(&mut stc, "region", s(signing.region.as_str()));
    put(&mut stc, "use_unsigned_payload", b(signing.use_unsigned_payload));
    if signing.use_env_credentials {
        // Without this the proxy looks for instance credentials, which are
        // not there outside of the cloud.
        let mut cp = Mapping::new();
        put(&mut cp, "custom_credential_provider_chain", b(true));
        put(&mut cp, "environment_credential_provider", mapping(Mapping::new()));
        put(&mut stc, "credential_provider", mapping(cp));
    }
    let mut upstream_filters = Vec::new();
    upstream_filters.push(named_config("envoy.filters.http.aws_request_signing", stc));
    upstream_filters.push(
        named_config(
            "envoy.filters.http.upstream_codec",
            typed_config("type.googleapis.com/envoy.extensions.filters.http.upstream_codec.v3.UpstreamCodec"),
        ),
    );
    let mut tc = typed_config("type.googleapis.com/envoy.extensions.filters.http.router.v3.Router");
    put(&mut tc, "upstream_http_filters", sequence(upstream_filters));
    named_config("envoy.filters.http.router", tc)
}

/// The rate-limit filter of a connection manager. The limits themselves
/// are set per route.
pub fn http_filter_local_ratelimit_default(stat_prefix: &str) -> (v: Value)
    ensures
        yaml_of(v) == local_ratelimit_filter_yaml(stat_prefix@),
{
    proof {
        lemma_keys();
    }
    let mut tc = typed_config(
        "type.googleapis.com/envoy.extensions.filters.http.local_ratelimit.v3.LocalRateLimit",
    );
    put(&mut tc, "stat_prefix", s(stat_prefix));
    named_config("envoy.filters.http.local_ratelimit", tc)
}

/// The gRPC-Web filter.
pub fn http_filter_grpc_web() -> (v: Value)
    ensures
        yaml_of(v) == grpc_web_filter_yaml(),
{
    named_config(
        "envoy.filters.http.grpc_web",
        typed_config("type.googleapis.com/envoy.extensions.filters.http.grpc_web.v3.GrpcWeb"),
    )
}

/// A request header to inject.
pub fn header_value_option(h: &HeaderValueOption) -> (v: Value)
    ensures
        yaml_of(v) == header_value_option_yaml(h@),
{
    proof {
        lemma_keys();
    }
    let mut hv = Mapping::new();
    put(&mut hv, "key", s(h.header.key.as_str()));
    put(&mut hv, "value", s(h.header.value.as_str()));
    let mut m = Mapping::new();
    put(&mut m, "header", mapping(hv));
    if let Some(append_action) = &h.append_action {
        put(&mut m, "append_action", s(append_action.as_str()));
    }
    mapping(m)
}

/// The network filter that forwards raw TCP to a cluster.
pub fn tcp_proxy_filter(stat_prefix: &str, cluster: &str) -> (f: Mapping)
    ensures
        Yaml::Dict(entries_of(f)) == tcp_proxy_filter_yaml(stat_prefix@, cluster@),
{
    proof {
        lemma_keys();
    }
    let mut tc = typed_config("type.googleapis.com/envoy.extensions.filters.network.tcp_proxy.v3.TcpProxy");
    put(&mut tc, "stat_prefix", s(stat_prefix));
    put(&mut tc, "cluster", s(cluster));
    let mut f = Mapping::new();
    put(&mut f, "name", s("envoy.filters.network.tcp_proxy"));
    put(&mut f, "typed_config", mapping(tc));
    f
}

/// A filter chain without a match, around one HTTP connection manager.
pub fn filter_chain_http(hcm_typed_config: Value) -> (fc: Mapping)
    ensures
        Yaml::Dict(entries_of(fc)) == http_filter_chain_yaml(yaml_of(hcm_typed_config)),
{
    proof {
        lemma_keys();
    }
    let mut f = Mapping::new();
    put(&mut f, "name", s("envoy.filters.network.http_connection_manager"));
    put(&mut f, "typed_config", hcm_typed_config);
    let mut fc = Mapping::new();
    put(&mut fc, "filters", single(mapping(f)));
    fc
}

/// The downstream TLS transport of a domain.
pub fn downstream_tls_socket(tls: &TlsSpec) -> (v: Value)
    ensures
        yaml_of(v) == downstream_tls_yaml(tls@),
{
    proof {
        lemma_keys();
    }
    let mut cc = Mapping::new();
    put(&mut cc, "filename", s(tls.cert_chain.as_str()));
    let mut pk = Mapping::new();
    put(&mut pk, "filename", s(tls.private_key.as_str()));
    let mut cert = Mapping::new();
    put(&mut cert, "certificate_chain", mapping(cc));
    put(&mut cert, "private_key", mapping(pk));
    let mut ctc = Mapping::new();
    put(&mut ctc, "tls_certificates", single(mapping(cert)));
    let mut tc = typed_config(
        "type.googleapis.com/envoy.extensions.transport_sockets.tls.v3.DownstreamTlsContext",
    );
    put(&mut tc, "common_tls_context", mapping(ctc));
    named_config("envoy.transport_sockets.tls", tc)
}

/* ---------------- routes ---------------- */

/// An optional reference as a mathematical value.
pub open spec fn view_of<T: View>(o: Option<&T>) -> Option<T::V> {
    match o {
        Some(r) => Some(r@),
        None => None,
    }
}

/// The texts of string slices.
pub open spec fn strs_of(names: Seq<&str>) -> Seq<Seq<char>> {
    names.map_values(|t: &str| t@)
}

fn header_matcher(h: &HeaderMatcher) -> (v: Value)
    ensures
        yaml_of(v) == header_matcher_yaml(h@),
{
    proof {
        lemma_keys();
    }
    let mut hm = Mapping::new();
    put(&mut hm, "name", s(h.name.as_str()));
    if let Some(exact) = &h.exact_match {
        put(&mut hm, "exact_match", s(exact.as_str()));
    }
    mapping(hm)
}

/// The match of a route.
pub fn match_to_value(m: &MatchSpec) -> (v: Value)
    ensures
        yaml_of(v) == match_yaml(m@),
{
    proof {
        lemma_keys();
    }
    let mut mm = Mapping::new();
    if let Some(prefix) = &m.prefix {
        put(&mut mm, "prefix", s(prefix.as_str()));
    } else if let Some(path) = &m.path {
        put(&mut mm, "path", s(path.as_str()));
    }
    if m.headers.len() > 0 {
        let mut headers: Vec<Value> = Vec::new();
        let mut i: usize = 0;
        while i < m.headers.len()
            invariant
                i <= m.headers@.len(),
                headers@.len() == i,
                forall|j: int|
                    0 <= j < i ==> yaml_of(#[trigger] headers@[j]) == header_matcher_yaml(
                        m.headers@[j]@,
                    ),
            decreases m.headers@.len() - i,
        {
            headers.push(header_matcher(&m.headers[i]));
            i += 1;
        }
        assert(yamls_of(headers@) =~= header_matchers_yaml(m@.headers));
        put(&mut mm, "headers", sequence(headers));
    }
    mapping(mm)
}

/// One route of a domain.
///
/// A route with a direct response answers by itself: neither a cluster nor
/// a timeout nor a rewrite is emitted for it, whatever else the route sets.
pub fn route_from_spec(r: &RouteSpec, defaults: &DefaultsSpec, policies: &PoliciesSpec) -> (v: Value)
    requires
        route_ready(r@, policies@),
    ensures
        yaml_of(v) == route_yaml(r@, defaults@, policies@),
{
    proof {
        lemma_keys();
    }
    let mut route = Mapping::new();
    put(&mut route, "match", match_to_value(&r.m));

    if let Some(dr) = &r.direct_response {
        let mut direct = Mapping::new();
        put(&mut direct, "status", n(dr.status as u64));
        if let Some(body) = &dr.body {
            let mut inline = Mapping::new();
            put(&mut inline, "inline_string", s(body.as_str()));
            put(&mut direct, "body", mapping(inline));
        }
        put(&mut route, "direct_response", mapping(direct));
        return mapping(route);
    }
    let mut route_action = Mapping::new();
    if let Some(upstream) = &r.to_upstream {
        put(&mut route_action, "cluster", s(upstream.as_str()));
    }
    let timeout = text_or(as_text(&r.timeout), defaults.route_timeout.as_str());
    put(&mut route_action, "timeout", s(timeout));
    if let Some(rewrite) = &r.prefix_rewrite {
        put(&mut route_action, "prefix_rewrite", s(rewrite.as_str()));
    }
    put(&mut route, "route", mapping(route_action));

    if let Some(pfc) = &r.per_filter_config {
        if let Some(key) = &pfc.local_ratelimit {
            let found = policies.get(key.as_str());
            let tb = found.unwrap();
            let fallback = String::from_str("rl_").concat(key.as_str());
            let stat_prefix = text_or(as_text(&tb.stat_prefix), fallback.as_str());
            let mut bucket = Mapping::new();
            put(&mut bucket, "max_tokens", n(tb.max_tokens as u64));
            put(&mut bucket, "tokens_per_fill", n(tb.tokens_per_fill as u64));
            put(&mut bucket, "fill_interval", s(tb.fill_interval.as_str()));
            let mut cfg = typed_config(
                "type.googleapis.com/envoy.extensions.filters.http.local_ratelimit.v3.LocalRateLimit",
            );
            put(&mut cfg, "stat_prefix", s(stat_prefix));
            put(&mut cfg, "token_bucket", mapping(bucket));
            let mut by_filter = Mapping::new();
            put(&mut by_filter, "envoy.filters.http.local_ratelimit", mapping(cfg));
            put(&mut route, "typed_per_filter_config", mapping(by_filter));
        }
    }
    mapping(route)
}

/// A route configuration with one virtual host that serves the given
/// domains.
pub fn route_config_single_vhost(
    name: &str,
    vhost_name: &str,
    domains: Vec<&str>,
    routes: Vec<Value>,
    request_headers_to_add: Option<&[HeaderValueOption]>,
) -> (v: Value)
    ensures
        yaml_of(v) == route_config_yaml(
            name@,
            vhost_name@,
            strs_of(domains@),
            yamls_of(routes@),
            match request_headers_to_add {
                Some(hs) => Some(views(hs@)),
                None => None,
            },
        ),
{
    proof {
        lemma_keys();
    }
    let mut names: Vec<Value> = Vec::new();
    let mut i: usize = 0;
    while i < domains.len()
        invariant
            i <= domains@.len(),
            names@.len() == i,
            forall|j: int| 0 <= j < i ==> yaml_of(#[trigger] names@[j]) == Yaml::Str(domains@[j]@),
        decreases domains@.len() - i,
    {
        names.push(s(domains[i]));
        i += 1;
    }
    assert(yamls_of(names@) =~= texts_yaml(strs_of(domains@)));
    let mut vh = Mapping::new();
    put(&mut vh, "name", s(vhost_name));
    put(&mut vh, "domains", sequence(names));
    if let Some(headers) = request_headers_to_add {
        if headers.len() > 0 {
            let mut added: Vec<Value> = Vec::new();
            let mut k: usize = 0;
            while k < headers.len()
                invariant
                    k <= headers@.len(),
                    added@.len() == k,
                    forall|j: int|
                        0 <= j < k ==> yaml_of(#[trigger] added@[j]) == header_value_option_yaml(
                            headers@[j]@,
                        ),
                decreases headers@.len() - k,
            {
                added.push(header_value_option(&headers[k]));
                k += 1;
            }
            assert(yamls_of(added@) =~= header_value_options_yaml(views(headers@)));
            put(&mut vh, "request_headers_to_add", sequence(added));
        }
    }
    put(&mut vh, "routes", sequence(routes));
    let mut rc = Mapping::new();
    put(&mut rc, "name", s(name));
    put(&mut rc, "virtual_hosts", single(mapping(vh)));
    mapping(rc)
}

/* ---------------- HTTP connection manager ---------------- */

/// Whether a filter is the terminal routing filter.
fn is_router(filter: &Value) -> (r: bool)
    ensures
        r == is_router_filter(yaml_of(*filter)),
{
    match as_mapping(filter) {
        Some(m) => match mapping_get(m, "name") {
            Some(name) => match as_str(name) {
                Some(t) => str_eq(t, "envoy.filters.http.router"),
                None => false,
            },
            None => false,
        },
        None => false,
    }
}

/// An HTTP connection manager without a domain of its own.
pub fn http_connection_manager(
    stat_prefix: &str,
    log: &AccessLogSpec,
    route_config: Value,
    http_filters: Vec<Value>,
    overrides: Option<&HttpConnectionManagerSpec>,
) -> (v: Value)
    ensures
        yaml_of(v) == hcm_yaml(
            stat_prefix@,
            log@,
            yaml_of(route_config),
            yamls_of(http_filters@),
            view_of(overrides),
            None,
            None,
            None,
        ),
{
    http_connection_manager_with_domain(
        stat_prefix,
        log,
        route_config,
        http_filters,
        overrides,
        None,
        None,
        None,
    )
}

/// An HTTP connection manager. Each option is resolved in its order of
/// precedence; with signing enabled the routing filter gives way to its
/// signing variant.
#[allow(clippy::too_many_arguments)]
pub fn http_connection_manager_with_domain(
    stat_prefix: &str,
    log: &AccessLogSpec,
    route_config: Value,
    http_filters: Vec<Value>,
    overrides: Option<&HttpConnectionManagerSpec>,
    domain_normalize_path: Option<bool>,
    domain_merge_slashes: Option<bool>,
    aws_signing: Option<&AwsSigningSpec>,
) -> (v: Value)
    ensures
        yaml_of(v) == hcm_yaml(
            stat_prefix@,
            log@,
            yaml_of(route_config),
            yamls_of(http_filters@),
            view_of(overrides),
            domain_normalize_path,
            domain_merge_slashes,
            view_of(aws_signing),
        ),
{
    proof {
        lemma_keys();
    }
    let mut hcm = typed_config(
        "type.googleapis.com/envoy.extensions.filters.network.http_connection_manager.v3.HttpConnectionManager",
    );
    let prefix = text_or(
        match overrides {
            Some(o) => as_text(&o.stat_prefix),
            None => None,
        },
        stat_prefix,
    );
    put(&mut hcm, "stat_prefix", s(prefix));
    let normalize_sources = [
        domain_normalize_path,
        match overrides {
            Some(o) => o.normalize_path,
            None => None,
        },
    ];
    assert(normalize_sources@ =~= seq![
        domain_normalize_path,
        override_normalize_path(view_of(overrides)),
    ]);
    put(&mut hcm, "normalize_path", b(resolve(&normalize_sources, true)));
    let merge_sources = [
        domain_merge_slashes,
        match overrides {
            Some(o) => o.merge_slashes,
            None => None,
        },
    ];
    assert(merge_sources@ =~= seq![domain_merge_slashes, override_merge_slashes(view_of(overrides))]);
    put(&mut hcm, "merge_slashes", b(resolve(&merge_sources, true)));
    if let Some(o) = overrides {
        if let Some(use_remote_address) = o.use_remote_address {
            put(&mut hcm, "use_remote_address", b(use_remote_address));
        }
        if let Some(hops) = o.xff_num_trusted_hops {
            put(&mut hcm, "xff_num_trusted_hops", n(hops as u64));
        }
        if let Some(idle) = &o.stream_idle_timeout {
            put(&mut hcm, "stream_idle_timeout", s(idle.as_str()));
        }
    }
    put(&mut hcm, "access_log", stdout_access_log(log));
    put(&mut hcm, "route_config", route_config);

    let ghost declared = yamls_of(http_filters@);
    let filters = match aws_signing {
        Some(signing) => if signing.enabled {
            let mut replaced: Vec<Value> = Vec::new();
            for filter in it: http_filters
                invariant
                    it.seq() == http_filters@,
                    replaced@.len() == it.index(),
                    forall|j: int|
                        0 <= j < it.index() ==> yaml_of(#[trigger] replaced@[j]) == (
                        if is_router_filter(yaml_of(http_filters@[j])) {
                            signing_router_filter_yaml(signing@)
                        } else {
                            yaml_of(http_filters@[j])
                        }),
            {
                if is_router(&filter) {
                    replaced.push(http_filter_router_with_aws_signing(signing));
                } else {
                    replaced.push(filter);
                }
            }
            assert(yamls_of(replaced@) =~= signed_filters(declared, view_of(aws_signing)));
            replaced
        } else {
            http_filters
        },
        None => http_filters,
    };
    put(&mut hcm, "http_filters", sequence(filters));
    mapping(hcm)
}

/// Resolves an option in priority order: of the sources, highest first,
/// the first that has a value decides, and the default stands when none
/// has.
pub fn resolve<T: Copy>(sources: &[Option<T>], default: T) -> (r: T)
    ensures
        r == by_precedence(sources@, default),
{
    let mut i: usize = 0;
    assert(sources@.skip(0) =~= sources@);
    while i < sources.len()
        invariant
            i <= sources@.len(),
            by_precedence(sources@, default) == by_precedence(sources@.skip(i as int), default),
        decreases sources@.len() - i,
    {
        assert(sources@.skip(i as int)[0] == sources@[i as int]);
        assert(sources@.skip(i as int).drop_first() =~= sources@.skip(i + 1));
        if let Some(v) = sources[i] {
            return v;
        }
        i += 1;
    }
    default
}

/// The text of an optional string slice.
pub open spec fn text_of(o: Option<&str>) -> Option<Seq<char>> {
    match o {
        Some(t) => Some(t@),
        None => None,
    }
}

/// An optional string as an optional string slice.
fn as_text(o: &Option<String>) -> (r: Option<&str>)
    ensures
        text_of(r) == optional_view(*o),
{
    match o {
        Some(t) => Some(t.as_str()),
        None => None,
    }
}

/// The text of the one source if it has one, else the default.
fn text_or<'a>(source: Option<&'a str>, default: &'a str) -> (r: &'a str)
    ensures
        r@ == by_precedence(seq![text_of(source)], default@),
{
    proof {
        lemma_precedence_of_one(source, default);
        lemma_precedence_of_one(text_of(source), default@);
        assert([source]@ =~= seq![source]);
    }
    resolve(&[source], default)
}

/* ---------------- clusters ---------------- */

/// One cluster.
pub fn gen_cluster(u: &UpstreamSpec) -> (m: Mapping)
    ensures
        Yaml::Dict(entries_of(m)) == cluster_yaml(u@),
{
    proof {
        lemma_keys();
    }
    let mut lb_eps: Vec<Value> = Vec::new();
    let mut i: usize = 0;
    while i < u.endpoints.len()
        invariant
            i <= u.endpoints@.len(),
            lb_eps@.len() == i,
            forall|j: int|
                0 <= j < i ==> yaml_of(#[trigger] lb_eps@[j]) == lb_endpoint_yaml(u.endpoints@[j]@),
        decreases u.endpoints@.len() - i,
    {
        let ep = &u.endpoints[i];
        let mut endpoint = Mapping::new();
        put(&mut endpoint, "address", socket_addr("TCP", ep.address.as_str(), ep.port));
        let mut e = Mapping::new();
        put(&mut e, "endpoint", mapping(endpoint));
        lb_eps.push(mapping(e));
        i += 1;
    }
    assert(yamls_of(lb_eps@) =~= lb_endpoints_yaml(u@.endpoints));
    let mut group = Mapping::new();
    put(&mut group, "lb_endpoints", sequence(lb_eps));
    let mut load_assignment = Mapping::new();
    put(&mut load_assignment, "cluster_name", s(u.name.as_str()));
    put(&mut load_assignment, "endpoints", single(mapping(group)));

    let mut m = Mapping::new();
    put(&mut m, "name", s(u.name.as_str()));
    put(&mut m, "connect_timeout", s(u.connect_timeout.as_str()));
    put(&mut m, "type", s(u.type_.as_str()));
    put(&mut m, "lb_policy", s(u.lb_policy.as_str()));
    if u.http2 {
        put(&mut m, "http2_protocol_options", mapping(Mapping::new()));
    }
    put(&mut m, "load_assignment", mapping(load_assignment));
    m
}

/// The cluster list, ascending by upstream name whatever the order of the
/// input, so that the document is stable under reordering of fragments.
pub fn gen_clusters(upstreams: &[UpstreamSpec]) -> (v: Value)
    ensures
        yaml_of(v) == clusters_yaml(views(upstreams@)),
{
    let order = order_by_name(upstreams);
    let mut clusters: Vec<Value> = Vec::new();
    let mut i: usize = 0;
    while i < order.len()
        invariant
            i <= order@.len(),
            clusters@.len() == i,
            forall|k: int| 0 <= k < order@.len() ==> (#[trigger] order@[k]) < upstreams@.len(),
            forall|j: int|
                0 <= j < i ==> yaml_of(#[trigger] clusters@[j]) == cluster_yaml(
                    upstreams@[order@[j] as int]@,
                ),
        decreases order@.len() - i,
    {
        clusters.push(mapping(gen_cluster(&upstreams[order[i]])));
        i += 1;
    }
    assert(yamls_of(clusters@) =~= clusters_of(picked(views(upstreams@), order@)));
    sequence(clusters)
}

/* ---------------- listeners ---------------- */

/// A listener without TLS around one route configuration.
fn plain_listener(
    name: &str,
    address: &str,
    port: u16,
    stat_prefix: &str,
    log: &AccessLogSpec,
    route_config: Value,
) -> (listener: Mapping)
    ensures
        Yaml::Dict(entries_of(listener)) == crate::document::plain_listener_yaml(
            name@,
            address@,
            port,
            stat_prefix@,
            log@,
            yaml_of(route_config),
        ),
{
    proof {
        lemma_keys();
    }
    let mut listener = Mapping::new();
    put(&mut listener, "name", s(name));
    put(&mut listener, "address", socket_addr("TCP", address, port));
    let mut filters: Vec<Value> = Vec::new();
    filters.push(http_filter_router());
    let hcm = http_connection_manager(stat_prefix, log, route_config, filters, None);
    put(&mut listener, "filter_chains", single(mapping(filter_chain_http(hcm))));
    listener
}

/// The plain HTTP listener on port 80: everything goes to the default HTTP
/// upstream.
pub fn gen_http_80_listener(defaults: &DefaultsSpec, log: &AccessLogSpec) -> (listener: Mapping)
    ensures
        Yaml::Dict(entries_of(listener)) == http_listener_yaml(defaults@, log@),
{
    let mut routes: Vec<Value> = Vec::new();
    routes.push(
        route_prefix_to_cluster(
            "/",
            defaults.http_default_upstream.as_str(),
            Some(defaults.route_timeout.clone()),
        ),
    );
    let mut domains: Vec<&str> = Vec::new();
    domains.push("*");
    assert(strs_of(domains@) =~= Seq::empty().push("*"@));
    let rc = route_config_single_vhost("external_http_route", "all_hosts", domains, routes, None);
    plain_listener("http_listener", "0.0.0.0", 80, "external_http", log, rc)
}

/// An internal listener: plain HTTP on its own address, everything to its
/// own upstream.
pub fn gen_internal_http_listener(
    defaults: &DefaultsSpec,
    log: &AccessLogSpec,
    internal: &InternalHttpListenerSpec,
) -> (listener: Mapping)
    ensures
        Yaml::Dict(entries_of(listener)) == internal_listener_yaml(defaults@, log@, internal@),
{
    let timeout = text_or(as_text(&internal.timeout), defaults.route_timeout.as_str());
    let mut routes: Vec<Value> = Vec::new();
    routes.push(
        route_prefix_to_cluster("/", internal.to_upstream.as_str(), Some(timeout.to_owned())),
    );

    let mut domains: Vec<&str> = Vec::new();
    let mut i: usize = 0;
    while i < internal.domains.len()
        invariant
            i <= internal.domains@.len(),
            domains@.len() == i,
            forall|j: int| 0 <= j < i ==> (#[trigger] domains@[j])@ == internal.domains@[j]@,
        decreases internal.domains@.len() - i,
    {
        domains.push(internal.domains[i].as_str());
        i += 1;
    }
    assert(strs_of(domains@) =~= internal@.domains);

    let route_name = internal.name.clone().concat("_route");
    let vhost_name = internal.name.clone().concat("_vhost");
    let rc = route_config_single_vhost(
        route_name.as_str(),
        vhost_name.as_str(),
        domains,
        routes,
        Some(internal.request_headers_to_add.as_slice()),
    );
    plain_listener(
        internal.name.as_str(),
        internal.address.as_str(),
        internal.port,
        internal.stat_prefix.as_str(),
        log,
        rc,
    )
}

/// Whether any route names a rate-limit policy.
fn any_route_uses_rate_limit(routes: &[RouteSpec]) -> (r: bool)
    ensures
        r == any_uses_rate_limit(views(routes@)),
{
    let mut i: usize = 0;
    while i < routes.len()
        invariant
            i <= routes@.len(),
            forall|j: int| 0 <= j < i ==> !uses_rate_limit(#[trigger] routes@[j]@),
        decreases routes@.len() - i,
    {
        if let Some(p) = &routes[i].per_filter_config {
            if p.local_ratelimit.is_some() {
                assert(uses_rate_limit(views(routes@)[i as int]));
                return true;
            }
        }
        i += 1;
    }
    false
}

/// The HTTP filters of a domain before signing: the rate-limit filter if
/// any route names a policy, the extra filters that the domain declares,
/// and the router last.
fn domain_filters(d: &DomainSpec) -> (filters: Vec<Value>)
    ensures
        yamls_of(filters@) == plain_http_filters(d@),
{
    let mut filters: Vec<Value> = Vec::new();
    if any_route_uses_rate_limit(d.routes.as_slice()) {
        let stat_prefix = text_or(
            match &d.http_connection_manager {
                Some(hcm) => as_text(&hcm.local_ratelimit_stat_prefix),
                None => None,
            },
            "default_local_ratelimit",
        );
        filters.push(http_filter_local_ratelimit_default(stat_prefix));
    }
    assert(yamls_of(filters@) == rate_limit_filters(d@));
    let mut extras: Vec<Value> = Vec::new();
    if let Some(hcm) = &d.http_connection_manager {
        let mut i: usize = 0;
        while i < hcm.extra_http_filters.len()
            invariant
                i <= hcm.extra_http_filters@.len(),
                extras@.len() == i,
                forall|j: int|
                    0 <= j < i ==> yaml_of(#[trigger] extras@[j]) == extra_filter_yaml(
                        hcm.extra_http_filters@[j]@,
                    ),
            decreases hcm.extra_http_filters@.len() - i,
        {
            match &hcm.extra_http_filters[i] {
                HttpFilterSpec::GrpcWeb => extras.push(http_filter_grpc_web()),
            }
            i += 1;
        }
        assert(yamls_of(extras@) =~= extra_filters_yaml(hcm@.extra_http_filters));
    }
    assert(yamls_of(extras@) =~= extra_filters(d@));
    let ghost first = filters@;
    let ghost second = extras@;
    filters.append(&mut extras);
    assert(yamls_of(first + second) =~= yamls_of(first) + yamls_of(second));
    filters.push(http_filter_router());
    filters
}

/// The filter chain of a terminate-mode domain.
fn terminate_chain(
    d: &DomainSpec,
    defaults: &DefaultsSpec,
    log: &AccessLogSpec,
    policies: &PoliciesSpec,
) -> (chain: Value)
    requires
        is_terminate(d@),
        domain_ready(d@, policies@),
    ensures
        yaml_of(chain) == terminate_chain_yaml(d@, defaults@, log@, policies@),
{
    proof {
        lemma_keys();
    }
    let mut names: Vec<Value> = Vec::new();
    names.push(s(d.domain.as_str()));
    let mut sni = Mapping::new();
    put(&mut sni, "server_names", sequence(names));

    let mut routes: Vec<Value> = Vec::new();
    let mut i: usize = 0;
    while i < d.routes.len()
        invariant
            i <= d.routes@.len(),
            routes@.len() == i,
            is_terminate(d@),
            domain_ready(d@, policies@),
            forall|j: int|
                0 <= j < i ==> yaml_of(#[trigger] routes@[j]) == route_yaml(
                    d.routes@[j]@,
                    defaults@,
                    policies@,
                ),
        decreases d.routes@.len() - i,
    {
        assert(d@.routes[i as int] == d.routes@[i as int]@);
        routes.push(route_from_spec(&d.routes[i], defaults, policies));
        i += 1;
    }
    assert(yamls_of(routes@) =~= routes_yaml(d@.routes, defaults@, policies@));

    let mut domains: Vec<&str> = Vec::new();
    domains.push(d.domain.as_str());
    assert(strs_of(domains@) =~= Seq::empty().push(d.domain@));
    let label = sanitize_name(d.domain.as_str());
    let rc = route_config_single_vhost(
        label.clone().concat("_route").as_str(),
        label.clone().concat("_vhost").as_str(),
        domains,
        routes,
        None,
    );
    let hcm = http_connection_manager_with_domain(
        label.concat("_https").as_str(),
        log,
        rc,
        domain_filters(d),
        d.http_connection_manager.as_ref(),
        d.normalize_path,
        d.merge_slashes,
        d.aws_signing.as_ref(),
    );
    assert(yaml_of(hcm) == domain_hcm_yaml(d@, defaults@, log@, policies@));
    let mut f = Mapping::new();
    put(&mut f, "name", s("envoy.filters.network.http_connection_manager"));
    put(&mut f, "typed_config", hcm);

    let mut fc = Mapping::new();
    put(&mut fc, "filter_chain_match", mapping(sni));
    let tls = d.tls.as_ref();
    put(&mut fc, "transport_socket", downstream_tls_socket(tls.unwrap()));
    put(&mut fc, "filters", single(mapping(f)));
    mapping(fc)
}

/// The TLS listener on port 443. It reads the server name of each
/// connection and gives the connection to the chain of that domain; what no
/// domain claims goes, still encrypted, to the passthrough upstream.
pub fn gen_https_443_sni_listener(
    defaults: &DefaultsSpec,
    log: &AccessLogSpec,
    domains: &[DomainSpec],
    policies: &PoliciesSpec,
) -> (listener: Mapping)
    requires
        domains_ready(views(domains@), policies@),
    ensures
        Yaml::Dict(entries_of(listener)) == https_listener_yaml(
            defaults@,
            log@,
            views(domains@),
            policies@,
        ),
{
    proof {
        lemma_keys();
    }
    let mut chains: Vec<Value> = Vec::new();
    let mut i: usize = 0;
    while i < domains.len()
        invariant
            i <= domains@.len(),
            domains_ready(views(domains@), policies@),
            yamls_of(chains@) == terminate_chains(
                views(domains@).take(i as int),
                defaults@,
                log@,
                policies@,
            ),
        decreases domains@.len() - i,
    {
        let d = &domains[i];
        proof {
            lemma_terminate_chains_step(views(domains@), i as int, defaults@, log@, policies@);
        }
        if str_eq(d.mode.as_str(), "terminate_https_443") {
            chains.push(terminate_chain(d, defaults, log, policies));
        }
        i += 1;
    }
    assert(views(domains@).take(domains@.len() as int) =~= views(domains@));
    // The chain without a match goes last: a proxy takes the first chain
    // whose match succeeds.
    let mut passthrough = Mapping::new();
    put(
        &mut passthrough,
        "filters",
        single(
            mapping(
                tcp_proxy_filter("external_tls_passthrough", defaults.tls_passthrough_upstream.as_str()),
            ),
        ),
    );
    chains.push(mapping(passthrough));

    let mut listener = Mapping::new();
    put(&mut listener, "name", s("https_sni_listener"));
    put(&mut listener, "address", socket_addr("TCP", "0.0.0.0", 443));
    put(
        &mut listener,
        "listener_filters",
        single(
            named_config(
                "envoy.filters.listener.tls_inspector",
                typed_config(
                    "type.googleapis.com/envoy.extensions.filters.listener.tls_inspector.v3.TlsInspector",
                ),
            ),
        ),
    );
    put(&mut listener, "filter_chains", sequence(chains));
    listener
}

/// The listener list: plain HTTP, TLS, then the internal listeners.
pub fn gen_listeners(
    defaults: &DefaultsSpec,
    log: &AccessLogSpec,
    domains: &[DomainSpec],
    policies: &PoliciesSpec,
    listeners_spec: &ListenersSpec,
) -> (v: Value)
    requires
        domains_ready(views(domains@), policies@),
    ensures
        yaml_of(v) == Yaml::List(listeners(defaults@, log@, views(domains@), policies@, listeners_spec@)),
{
    let mut out: Vec<Value> = Vec::new();
    out.push(mapping(gen_http_80_listener(defaults, log)));
    out.push(mapping(gen_https_443_sni_listener(defaults, log, domains, policies)));
    let internals = &listeners_spec.internal_http_listeners;
    let mut i: usize = 0;
    while i < internals.len()
        invariant
            i <= internals@.len(),
            out@.len() == 2 + i,
            yaml_of(out@[0]) == http_listener_yaml(defaults@, log@),
            yaml_of(out@[1]) == https_listener_yaml(defaults@, log@, views(domains@), policies@),
            forall|k: int|
                2 <= k < 2 + i ==> yaml_of(#[trigger] out@[k]) == internal_listener_yaml(
                    defaults@,
                    log@,
                    internals@[k - 2]@,
                ),
        decreases internals@.len() - i,
    {
        out.push(mapping(gen_internal_http_listener(defaults, log, &internals[i])));
        i += 1;
    }
    assert(yamls_of(out@) =~= listeners(defaults@, log@, views(domains@), policies@, listeners_spec@));
    sequence(out)
}

/* ---------------- the document ---------------- */

/// Why no document can be generated from a model. A model that passed
/// validation has none of these.
#[derive(Debug)]
pub enum InvariantViolation {
    /// A terminate-mode domain without TLS material.
    MissingTls { domain: String },
    /// An upstream route of a terminate-mode domain that names a rate-limit
    /// policy which does not exist.
    UnknownRateLimitPolicy { domain: String, policy: String },
}

impl View for InvariantViolation {
    type V = Gap;

    open spec fn view(&self) -> Gap {
        match self {
            InvariantViolation::MissingTls { domain } => Gap::MissingTls { domain: domain@ },
            InvariantViolation::UnknownRateLimitPolicy { domain, policy } => {
                Gap::UnknownRateLimitPolicy { domain: domain@, policy: policy@ }
            },
        }
    }
}

/// The text of a gap, as a message shows it.
pub open spec fn gap_message(gap: Gap) -> Seq<char> {
    match gap {
        Gap::MissingTls { domain } => "domain "@ + domain
            + " mode terminate_https_443 requires tls block"@,
        Gap::UnknownRateLimitPolicy { domain, policy } => "domain "@ + domain
            + " route references unknown local_ratelimit policy "@ + policy,
    }
}

impl InvariantViolation {
    /// A message that names the domain, and the policy if one is missing.
    pub fn message(&self) -> (text: String)
        ensures
            text@ == gap_message(self@),
    {
        match self {
            InvariantViolation::MissingTls { domain } => {
                String::from_str("domain ").concat(domain.as_str()).concat(
                    " mode terminate_https_443 requires tls block",
                )
            },
            InvariantViolation::UnknownRateLimitPolicy { domain, policy } => {
                String::from_str("domain ").concat(domain.as_str()).concat(
                    " route references unknown local_ratelimit policy ",
                ).concat(policy.as_str())
            },
        }
    }
}

/// The first policy that a route of the sequence needs and does not find.
fn find_route_gap<'a>(routes: &'a [RouteSpec], policies: &PoliciesSpec) -> (r: Option<&'a str>)
    ensures
        match r {
            Some(name) => first_at(routes@.len() as int, route_checks(views(routes@), policies@)) == Some(
                name@,
            ),
            None => first_at(routes@.len() as int, route_checks(views(routes@), policies@)) is None,
        },
{
    let mut j: usize = 0;
    while j < routes.len()
        invariant
            j <= routes@.len(),
            first_at(j as int, route_checks(views(routes@), policies@)) is None,
        decreases routes@.len() - j,
    {
        let r = &routes[j];
        assert(route_checks(views(routes@), policies@)(j as int) == route_gap(r@, policies@));
        if r.direct_response.is_none() {
            if let Some(p) = &r.per_filter_config {
                if let Some(name) = &p.local_ratelimit {
                    if policies.get(name.as_str()).is_none() {
                        proof {
                            lemma_first_at_stays(
                                j + 1,
                                routes@.len() as int,
                                route_checks(views(routes@), policies@),
                            );
                        }
                        return Some(name.as_str());
                    }
                }
            }
        }
        j += 1;
    }
    None
}

/// What keeps a document from being generated, if anything does.
pub fn find_gap(domains: &[DomainSpec], policies: &PoliciesSpec) -> (r: Option<InvariantViolation>)
    ensures
        match r {
            Some(e) => first_gap(views(domains@), policies@) == Some(e@),
            None => first_gap(views(domains@), policies@) is None,
        },
        r is None <==> domains_ready(views(domains@), policies@),
{
    let mut i: usize = 0;
    while i < domains.len()
        invariant
            i <= domains@.len(),
            first_at(i as int, domain_checks(views(domains@), policies@)) is None,
        decreases domains@.len() - i,
    {
        let d = &domains[i];
        assert(domain_checks(views(domains@), policies@)(i as int) == domain_gap(d@, policies@));
        if str_eq(d.mode.as_str(), "terminate_https_443") {
            let found = if d.tls.is_none() {
                Some(InvariantViolation::MissingTls { domain: d.domain.clone() })
            } else {
                match find_route_gap(d.routes.as_slice(), policies) {
                    Some(policy) => Some(
                        InvariantViolation::UnknownRateLimitPolicy {
                            domain: d.domain.clone(),
                            policy: policy.to_owned(),
                        },
                    ),
                    None => None,
                }
            };
            if found.is_some() {
                proof {
                    lemma_first_at_stays(
                        i + 1,
                        domains@.len() as int,
                        domain_checks(views(domains@), policies@),
                    );
                    lemma_domains_ready(views(domains@), policies@);
                }
                return found;
            }
        }
        i += 1;
    }
    proof {
        lemma_domains_ready(views(domains@), policies@);
    }
    None
}

/// What generation gives for a model: the document of the model if the
/// model has no gap, and else the first gap.
pub open spec fn generated(loaded: LoadedView, r: Result<Value, InvariantViolation>) -> bool {
    match r {
        Ok(v) => {
            &&& domains_ready(loaded.domains, loaded.policies)
            &&& yaml_of(v) == envoy_yaml(loaded)
        },
        Err(e) => first_gap(loaded.domains, loaded.policies) == Some(e@),
    }
}

/// Generates the bootstrap document of a model: the admin block, the
/// listeners and the clusters.
///
/// Succeeds on every model that passed validation. On any other model it
/// succeeds as well unless the model has a gap that leaves a chain without
/// its TLS material or a route without its rate-limit policy; the error is
/// then the first such gap.
pub fn generate_envoy_yaml(loaded: &Loaded) -> (r: Result<Value, InvariantViolation>)
    ensures
        generated(loaded@, r),
{
    if let Some(e) = find_gap(loaded.domains.as_slice(), &loaded.policies) {
        return Err(e);
    }
    proof {
        lemma_keys();
    }
    let mut static_resources = Mapping::new();
    put(
        &mut static_resources,
        "listeners",
        gen_listeners(
            &loaded.defaults,
            &loaded.access_log,
            loaded.domains.as_slice(),
            &loaded.policies,
            &loaded.listeners,
        ),
    );
    put(&mut static_resources, "clusters", gen_clusters(loaded.upstreams.as_slice()));

    let mut root = Mapping::new();
    put(&mut root, "admin", gen_admin(&loaded.admin, &loaded.access_log));
    put(&mut root, "static_resources", mapping(static_resources));
    Ok(mapping(root))
}

/// The admin block.
pub fn gen_admin(admin: &AdminSpec, log: &AccessLogSpec) -> (v: Value)
    ensures
        yaml_of(v) == admin_yaml(admin@, log@),
{
    proof {
        lemma_keys();
    }
    let mut m = Mapping::new();
    put(&mut m, "access_log", stdout_access_log(log));
    put(&mut m, "address", socket_addr("TCP", admin.address.as_str(), admin.port));
    mapping(m)
}

/// Generation succeeds on every valid model.
pub proof fn lemma_valid_model_generates(loaded: LoadedView, r: Result<Value, InvariantViolation>)
    requires
        model_valid(loaded.domains, loaded.upstreams, loaded.policies, loaded.defaults),
        generated(loaded, r),
    ensures
        r is Ok,
{
    lemma_valid_model_is_ready(
        loaded.domains,
        loaded.upstreams,
        loaded.policies,
        loaded.defaults,
    );
    lemma_domains_ready(loaded.domains, loaded.policies);
}

/// Generation is deterministic: whatever it gives twice for one model is
/// the same document, or the same gap.
pub proof fn lemma_generate_deterministic(
    loaded: LoadedView,
    first: Result<Value, InvariantViolation>,
    second: Result<Value, InvariantViolation>,
)
    requires
        generated(loaded, first),
        generated(loaded, second),
    ensures
        match (first, second) {
            (Ok(a), Ok(b)) => yaml_of(a) == yaml_of(b),
            (Err(a), Err(b)) => a@ == b@,
            _ => false,
        },
{
    lemma_domains_ready(loaded.domains, loaded.policies);
}

} // verus!
