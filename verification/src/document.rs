//! What the generated bootstrap document is, block by block, as a function
//! of the configuration model.
//!
//! Everything here is ghost code: each function gives the YAML tree that the
//! generator of the same block builds. Mappings list their entries in
//! document order.

use crate::first::{first_at, lemma_first_at_none};
use crate::load::LoadedView;
use crate::model::{
    AccessLogView, AdminView, AwsSigningView, DefaultsView, DirectResponseView, DomainView,
    EndpointView, HeaderMatcherView, HeaderValueOptionView, HttpConnectionManagerView,
    HttpFilterSpec, InternalHttpListenerView, ListenersView, MatchView, RouteView, TlsView,
    TokenBucketView, UpstreamView,
};
use crate::order::{lemma_sorted_by_name, name_le, sorted_by_name};
use crate::text::sanitized;
use crate::yaml::{lookup, Yaml};
use vstd::prelude::*;

verus! {

/// The entries of a mapping.
pub type Entries = Seq<(Seq<char>, Yaml)>;

/// A mapping without entries yet.
pub open spec fn no_entries() -> Entries {
    Seq::empty()
}

/// A string value with the given text.
pub open spec fn text(s: Seq<char>) -> Yaml {
    Yaml::Str(s)
}

/// The entries with one more at the end, if there is a value for it.
pub open spec fn with_optional(entries: Entries, key: Seq<char>, value: Option<Yaml>) -> Entries {
    match value {
        Some(v) => entries.push((key, v)),
        None => entries,
    }
}

/// An optional text as an optional string value.
pub open spec fn optional_str(s: Option<Seq<char>>) -> Option<Yaml> {
    match s {
        Some(t) => Some(Yaml::Str(t)),
        None => None,
    }
}

/// Resolution of an option in priority order: of the sources, highest
/// first, the first that has a value decides, and the default stands when
/// none has.
pub open spec fn by_precedence<T>(sources: Seq<Option<T>>, default: T) -> T
    decreases sources.len(),
{
    if sources.len() == 0 {
        default
    } else {
        match sources[0] {
            Some(v) => v,
            None => by_precedence(sources.drop_first(), default),
        }
    }
}

/// With one source, its value decides if it has one.
pub proof fn lemma_precedence_of_one<T>(source: Option<T>, default: T)
    ensures
        by_precedence(seq![source], default) == match source {
            Some(v) => v,
            None => default,
        },
{
    reveal_with_fuel(by_precedence, 2);
    assert(seq![source].drop_first().len() == 0);
}

/// With two sources, the lower one decides only if the higher has no
/// value.
pub proof fn lemma_precedence_of_two<T>(high: Option<T>, low: Option<T>, default: T)
    ensures
        by_precedence(seq![high, low], default) == match high {
            Some(v) => v,
            None => match low {
                Some(v) => v,
                None => default,
            },
        },
{
    reveal_with_fuel(by_precedence, 3);
    let sources = seq![high, low];
    assert(sources.drop_first()[0] == low);
    assert(sources.drop_first().drop_first().len() == 0);
}

/// The length and the first character of each key of the document. Two
/// keys that differ in either are different keys, which is how the keys of
/// one mapping are told apart.
pub proof fn lemma_keys()
    ensures
        "@type"@.len() == 5 && "@type"@[0] == '@',
        "access_log"@.len() == 10 && "access_log"@[0] == 'a',
        "address"@.len() == 7 && "address"@[0] == 'a',
        "admin"@.len() == 5 && "admin"@[0] == 'a',
        "append_action"@.len() == 13 && "append_action"@[0] == 'a',
        "body"@.len() == 4 && "body"@[0] == 'b',
        "certificate_chain"@.len() == 17 && "certificate_chain"@[0] == 'c',
        "cluster"@.len() == 7 && "cluster"@[0] == 'c',
        "cluster_name"@.len() == 12 && "cluster_name"@[0] == 'c',
        "clusters"@.len() == 8 && "clusters"@[0] == 'c',
        "common_tls_context"@.len() == 18 && "common_tls_context"@[0] == 'c',
        "connect_timeout"@.len() == 15 && "connect_timeout"@[0] == 'c',
        "credential_provider"@.len() == 19 && "credential_provider"@[0] == 'c',
        "custom_credential_provider_chain"@.len() == 32 && "custom_credential_provider_chain"@[0] == 'c',
        "direct_response"@.len() == 15 && "direct_response"@[0] == 'd',
        "domains"@.len() == 7 && "domains"@[0] == 'd',
        "endpoint"@.len() == 8 && "endpoint"@[0] == 'e',
        "endpoints"@.len() == 9 && "endpoints"@[0] == 'e',
        "environment_credential_provider"@.len() == 31 && "environment_credential_provider"@[0] == 'e',
        "exact_match"@.len() == 11 && "exact_match"@[0] == 'e',
        "filename"@.len() == 8 && "filename"@[0] == 'f',
        "fill_interval"@.len() == 13 && "fill_interval"@[0] == 'f',
        "filter_chain_match"@.len() == 18 && "filter_chain_match"@[0] == 'f',
        "filter_chains"@.len() == 13 && "filter_chains"@[0] == 'f',
        "filters"@.len() == 7 && "filters"@[0] == 'f',
        "header"@.len() == 6 && "header"@[0] == 'h',
        "headers"@.len() == 7 && "headers"@[0] == 'h',
        "http2_protocol_options"@.len() == 22 && "http2_protocol_options"@[0] == 'h',
        "http_filters"@.len() == 12 && "http_filters"@[0] == 'h',
        "inline_string"@.len() == 13 && "inline_string"@[0] == 'i',
        "key"@.len() == 3 && "key"@[0] == 'k',
        "lb_endpoints"@.len() == 12 && "lb_endpoints"@[0] == 'l',
        "lb_policy"@.len() == 9 && "lb_policy"@[0] == 'l',
        "listener_filters"@.len() == 16 && "listener_filters"@[0] == 'l',
        "listeners"@.len() == 9 && "listeners"@[0] == 'l',
        "load_assignment"@.len() == 15 && "load_assignment"@[0] == 'l',
        "match"@.len() == 5 && "match"@[0] == 'm',
        "max_tokens"@.len() == 10 && "max_tokens"@[0] == 'm',
        "merge_slashes"@.len() == 13 && "merge_slashes"@[0] == 'm',
        "name"@.len() == 4 && "name"@[0] == 'n',
        "normalize_path"@.len() == 14 && "normalize_path"@[0] == 'n',
        "path"@.len() == 4 && "path"@[0] == 'p',
        "port_value"@.len() == 10 && "port_value"@[0] == 'p',
        "prefix"@.len() == 6 && "prefix"@[0] == 'p',
        "prefix_rewrite"@.len() == 14 && "prefix_rewrite"@[0] == 'p',
        "private_key"@.len() == 11 && "private_key"@[0] == 'p',
        "protocol"@.len() == 8 && "protocol"@[0] == 'p',
        "region"@.len() == 6 && "region"@[0] == 'r',
        "request_headers_to_add"@.len() == 22 && "request_headers_to_add"@[0] == 'r',
        "route"@.len() == 5 && "route"@[0] == 'r',
        "route_config"@.len() == 12 && "route_config"@[0] == 'r',
        "routes"@.len() == 6 && "routes"@[0] == 'r',
        "server_names"@.len() == 12 && "server_names"@[0] == 's',
        "service_name"@.len() == 12 && "service_name"@[0] == 's',
        "socket_address"@.len() == 14 && "socket_address"@[0] == 's',
        "stat_prefix"@.len() == 11 && "stat_prefix"@[0] == 's',
        "static_resources"@.len() == 16 && "static_resources"@[0] == 's',
        "status"@.len() == 6 && "status"@[0] == 's',
        "stream_idle_timeout"@.len() == 19 && "stream_idle_timeout"@[0] == 's',
        "timeout"@.len() == 7 && "timeout"@[0] == 't',
        "tls_certificates"@.len() == 16 && "tls_certificates"@[0] == 't',
        "token_bucket"@.len() == 12 && "token_bucket"@[0] == 't',
        "tokens_per_fill"@.len() == 15 && "tokens_per_fill"@[0] == 't',
        "transport_socket"@.len() == 16 && "transport_socket"@[0] == 't',
        "type"@.len() == 4 && "type"@[0] == 't',
        "typed_config"@.len() == 12 && "typed_config"@[0] == 't',
        "typed_per_filter_config"@.len() == 23 && "typed_per_filter_config"@[0] == 't',
        "upstream_http_filters"@.len() == 21 && "upstream_http_filters"@[0] == 'u',
        "use_remote_address"@.len() == 18 && "use_remote_address"@[0] == 'u',
        "use_unsigned_payload"@.len() == 20 && "use_unsigned_payload"@[0] == 'u',
        "value"@.len() == 5 && "value"@[0] == 'v',
        "virtual_hosts"@.len() == 13 && "virtual_hosts"@[0] == 'v',
        "xff_num_trusted_hops"@.len() == 20 && "xff_num_trusted_hops"@[0] == 'x',
{
    reveal_strlit("@type");
    reveal_strlit("access_log");
    reveal_strlit("address");
    reveal_strlit("admin");
    reveal_strlit("append_action");
    reveal_strlit("body");
    reveal_strlit("certificate_chain");
    reveal_strlit("cluster");
    reveal_strlit("cluster_name");
    reveal_strlit("clusters");
    reveal_strlit("common_tls_context");
    reveal_strlit("connect_timeout");
    reveal_strlit("credential_provider");
    reveal_strlit("custom_credential_provider_chain");
    reveal_strlit("direct_response");
    reveal_strlit("domains");
    reveal_strlit("endpoint");
    reveal_strlit("endpoints");
    reveal_strlit("environment_credential_provider");
    reveal_strlit("exact_match");
    reveal_strlit("filename");
    reveal_strlit("fill_interval");
    reveal_strlit("filter_chain_match");
    reveal_strlit("filter_chains");
    reveal_strlit("filters");
    reveal_strlit("header");
    reveal_strlit("headers");
    reveal_strlit("http2_protocol_options");
    reveal_strlit("http_filters");
    reveal_strlit("inline_string");
    reveal_strlit("key");
    reveal_strlit("lb_endpoints");
    reveal_strlit("lb_policy");
    reveal_strlit("listener_filters");
    reveal_strlit("listeners");
    reveal_strlit("load_assignment");
    reveal_strlit("match");
    reveal_strlit("max_tokens");
    reveal_strlit("merge_slashes");
    reveal_strlit("name");
    reveal_strlit("normalize_path");
    reveal_strlit("path");
    reveal_strlit("port_value");
    reveal_strlit("prefix");
    reveal_strlit("prefix_rewrite");
    reveal_strlit("private_key");
    reveal_strlit("protocol");
    reveal_strlit("region");
    reveal_strlit("request_headers_to_add");
    reveal_strlit("route");
    reveal_strlit("route_config");
    reveal_strlit("routes");
    reveal_strlit("server_names");
    reveal_strlit("service_name");
    reveal_strlit("socket_address");
    reveal_strlit("stat_prefix");
    reveal_strlit("static_resources");
    reveal_strlit("status");
    reveal_strlit("stream_idle_timeout");
    reveal_strlit("timeout");
    reveal_strlit("tls_certificates");
    reveal_strlit("token_bucket");
    reveal_strlit("tokens_per_fill");
    reveal_strlit("transport_socket");
    reveal_strlit("type");
    reveal_strlit("typed_config");
    reveal_strlit("typed_per_filter_config");
    reveal_strlit("upstream_http_filters");
    reveal_strlit("use_remote_address");
    reveal_strlit("use_unsigned_payload");
    reveal_strlit("value");
    reveal_strlit("virtual_hosts");
    reveal_strlit("xff_num_trusted_hops");
}

/* ---------------- building blocks ---------------- */

/// A mapping with one entry.
pub open spec fn dict_of(key: Seq<char>, value: Yaml) -> Yaml {
    Yaml::Dict(no_entries().push((key, value)))
}

/// A list with one item.
pub open spec fn list_of(item: Yaml) -> Yaml {
    Yaml::List(Seq::empty().push(item))
}

/// The start of a typed configuration: its type.
pub open spec fn typed(type_url: Seq<char>) -> Entries {
    no_entries().push(("@type"@, text(type_url)))
}

/// A named extension with its typed configuration.
pub open spec fn named_config_yaml(name: Seq<char>, typed_config: Entries) -> Yaml {
    Yaml::Dict(no_entries().push(("name"@, text(name))).push(("typed_config"@, Yaml::Dict(typed_config))))
}

/// A socket address: protocol, address and numeric port.
pub open spec fn socket_addr_yaml(protocol: Seq<char>, address: Seq<char>, port: u16) -> Yaml {
    dict_of(
        "socket_address"@,
        Yaml::Dict(
            no_entries().push(("protocol"@, text(protocol))).push(("address"@, text(address))).push(
                ("port_value"@, Yaml::Number(port as u64)),
            ),
        ),
    )
}

/// The access-log list: the one file sink, writing to the configured path.
pub open spec fn access_log_yaml(log: AccessLogView) -> Yaml {
    list_of(
        named_config_yaml(
            "envoy.access_loggers.file"@,
            typed("type.googleapis.com/envoy.extensions.access_loggers.file.v3.FileAccessLog"@).push(
                ("path"@, text(log.path)),
            ),
        ),
    )
}

/// The admin block: the access log and the admin bind address.
pub open spec fn admin_yaml(admin: AdminView, log: AccessLogView) -> Yaml {
    Yaml::Dict(
        no_entries().push(("access_log"@, access_log_yaml(log))).push(
            ("address"@, socket_addr_yaml("TCP"@, admin.address, admin.port)),
        ),
    )
}

/// A route that sends a path prefix to a cluster, with a timeout if one is
/// given.
pub open spec fn prefix_route_yaml(
    prefix: Seq<char>,
    cluster: Seq<char>,
    timeout: Option<Seq<char>>,
) -> Yaml {
    Yaml::Dict(
        no_entries().push(("match"@, dict_of("prefix"@, text(prefix)))).push(
            (
                "route"@,
                Yaml::Dict(
                    with_optional(
                        no_entries().push(("cluster"@, text(cluster))),
                        "timeout"@,
                        optional_str(timeout),
                    ),
                ),
            ),
        ),
    )
}

/// A request header to inject, with its append action if one is set.
pub open spec fn header_value_option_yaml(h: HeaderValueOptionView) -> Yaml {
    Yaml::Dict(
        with_optional(
            no_entries().push(
                (
                    "header"@,
                    Yaml::Dict(
                        no_entries().push(("key"@, text(h.header.key))).push(
                            ("value"@, text(h.header.value)),
                        ),
                    ),
                ),
            ),
            "append_action"@,
            optional_str(h.append_action),
        ),
    )
}

/// The request headers to inject, in their order.
pub open spec fn header_value_options_yaml(headers: Seq<HeaderValueOptionView>) -> Seq<Yaml> {
    headers.map_values(|h: HeaderValueOptionView| header_value_option_yaml(h))
}

/// The request headers of a virtual host: the entry is left out when no
/// header is configured.
pub open spec fn request_headers_yaml(headers: Option<Seq<HeaderValueOptionView>>) -> Option<Yaml> {
    match headers {
        Some(hs) => if hs.len() > 0 {
            Some(Yaml::List(header_value_options_yaml(hs)))
        } else {
            None
        },
        None => None,
    }
}

/// Texts as string values.
pub open spec fn texts_yaml(texts: Seq<Seq<char>>) -> Seq<Yaml> {
    texts.map_values(|t: Seq<char>| text(t))
}

/// The one virtual host of a route configuration.
pub open spec fn virtual_host_yaml(
    name: Seq<char>,
    domains: Seq<Seq<char>>,
    routes: Seq<Yaml>,
    request_headers_to_add: Option<Seq<HeaderValueOptionView>>,
) -> Yaml {
    Yaml::Dict(
        with_optional(
            no_entries().push(("name"@, text(name))).push(
                ("domains"@, Yaml::List(texts_yaml(domains))),
            ),
            "request_headers_to_add"@,
            request_headers_yaml(request_headers_to_add),
        ).push(("routes"@, Yaml::List(routes))),
    )
}

/// A route configuration with a single virtual host.
pub open spec fn route_config_yaml(
    name: Seq<char>,
    vhost_name: Seq<char>,
    domains: Seq<Seq<char>>,
    routes: Seq<Yaml>,
    request_headers_to_add: Option<Seq<HeaderValueOptionView>>,
) -> Yaml {
    Yaml::Dict(
        no_entries().push(("name"@, text(name))).push(
            (
                "virtual_hosts"@,
                list_of(virtual_host_yaml(vhost_name, domains, routes, request_headers_to_add)),
            ),
        ),
    )
}

/// The terminal routing filter.
pub open spec fn router_filter_yaml() -> Yaml {
    named_config_yaml(
        "envoy.filters.http.router"@,
        typed("type.googleapis.com/envoy.extensions.filters.http.router.v3.Router"@),
    )
}

/// The credential source of the signing step: the environment only.
pub open spec fn env_credentials_yaml() -> Yaml {
    Yaml::Dict(
        no_entries().push(("custom_credential_provider_chain"@, Yaml::Bool(true))).push(
            ("environment_credential_provider"@, Yaml::Dict(no_entries())),
        ),
    )
}

/// The signing step that runs after routing.
pub open spec fn signing_step_yaml(signing: AwsSigningView) -> Yaml {
    named_config_yaml(
        "envoy.filters.http.aws_request_signing"@,
        with_optional(
            typed(
                "type.googleapis.com/envoy.extensions.filters.http.aws_request_signing.v3.AwsRequestSigning"@,
            ).push(("service_name"@, text(signing.service_name))).push(
                ("region"@, text(signing.region)),
            ).push(("use_unsigned_payload"@, Yaml::Bool(signing.use_unsigned_payload))),
            "credential_provider"@,
            if signing.use_env_credentials {
                Some(env_credentials_yaml())
            } else {
                None
            },
        ),
    )
}

/// The codec step that must follow the signing step.
pub open spec fn upstream_codec_yaml() -> Yaml {
    named_config_yaml(
        "envoy.filters.http.upstream_codec"@,
        typed("type.googleapis.com/envoy.extensions.filters.http.upstream_codec.v3.UpstreamCodec"@),
    )
}

/// The routing filter that signs upstream requests: the router, with a
/// signing step and then a codec step behind it.
pub open spec fn signing_router_filter_yaml(signing: AwsSigningView) -> Yaml {
    named_config_yaml(
        "envoy.filters.http.router"@,
        typed("type.googleapis.com/envoy.extensions.filters.http.router.v3.Router"@).push(
            (
                "upstream_http_filters"@,
                Yaml::List(
                    Seq::empty().push(signing_step_yaml(signing)).push(upstream_codec_yaml()),
                ),
            ),
        ),
    )
}

/// The rate-limit filter of a connection manager.
pub open spec fn local_ratelimit_filter_yaml(stat_prefix: Seq<char>) -> Yaml {
    named_config_yaml(
        "envoy.filters.http.local_ratelimit"@,
        typed(
            "type.googleapis.com/envoy.extensions.filters.http.local_ratelimit.v3.LocalRateLimit"@,
        ).push(("stat_prefix"@, text(stat_prefix))),
    )
}

/// The gRPC-Web filter.
pub open spec fn grpc_web_filter_yaml() -> Yaml {
    named_config_yaml(
        "envoy.filters.http.grpc_web"@,
        typed("type.googleapis.com/envoy.extensions.filters.http.grpc_web.v3.GrpcWeb"@),
    )
}

/// The network filter that forwards raw TCP to a cluster.
pub open spec fn tcp_proxy_filter_yaml(stat_prefix: Seq<char>, cluster: Seq<char>) -> Yaml {
    named_config_yaml(
        "envoy.filters.network.tcp_proxy"@,
        typed("type.googleapis.com/envoy.extensions.filters.network.tcp_proxy.v3.TcpProxy"@).push(
            ("stat_prefix"@, text(stat_prefix)),
        ).push(("cluster"@, text(cluster))),
    )
}

/// The network filter that holds an HTTP connection manager.
pub open spec fn hcm_filter_yaml(hcm: Yaml) -> Yaml {
    Yaml::Dict(
        no_entries().push(("name"@, text("envoy.filters.network.http_connection_manager"@))).push(
            ("typed_config"@, hcm),
        ),
    )
}

/// A filter chain without a match, holding one HTTP connection manager.
pub open spec fn http_filter_chain_yaml(hcm: Yaml) -> Yaml {
    dict_of("filters"@, list_of(hcm_filter_yaml(hcm)))
}

/// One certificate: its chain and its private key, each by file name.
pub open spec fn tls_certificate_yaml(tls: TlsView) -> Yaml {
    Yaml::Dict(
        no_entries().push(("certificate_chain"@, dict_of("filename"@, text(tls.cert_chain)))).push(
            ("private_key"@, dict_of("filename"@, text(tls.private_key))),
        ),
    )
}

/// The downstream TLS transport of a domain.
pub open spec fn downstream_tls_yaml(tls: TlsView) -> Yaml {
    named_config_yaml(
        "envoy.transport_sockets.tls"@,
        typed(
            "type.googleapis.com/envoy.extensions.transport_sockets.tls.v3.DownstreamTlsContext"@,
        ).push(
            ("common_tls_context"@, dict_of("tls_certificates"@, list_of(tls_certificate_yaml(tls)))),
        ),
    )
}

/* ---------------- HTTP connection manager ---------------- */

/// Whether a filter is the terminal routing filter: a mapping whose `name`
/// is the router's.
pub open spec fn is_router_filter(filter: Yaml) -> bool {
    filter matches Yaml::Dict(entries) && lookup(entries, "name"@) == Some(
        text("envoy.filters.http.router"@),
    )
}

/// Whether a domain signs its upstream requests.
pub open spec fn signing_enabled(signing: Option<AwsSigningView>) -> bool {
    signing matches Some(s) && s.enabled
}

/// The filter list of a connection manager: with signing enabled every
/// routing filter is replaced by its signing variant, and no other filter
/// changes.
pub open spec fn signed_filters(filters: Seq<Yaml>, signing: Option<AwsSigningView>) -> Seq<Yaml> {
    match signing {
        Some(s) => if s.enabled {
            filters.map_values(
                |f: Yaml|
                    if is_router_filter(f) {
                        signing_router_filter_yaml(s)
                    } else {
                        f
                    },
            )
        } else {
            filters
        },
        None => filters,
    }
}

/// The stat prefix that the override sets.
pub open spec fn override_stat_prefix(o: Option<HttpConnectionManagerView>) -> Option<Seq<char>> {
    match o {
        Some(h) => h.stat_prefix,
        None => None,
    }
}

/// The `normalize_path` that the override sets.
pub open spec fn override_normalize_path(o: Option<HttpConnectionManagerView>) -> Option<bool> {
    match o {
        Some(h) => h.normalize_path,
        None => None,
    }
}

/// The `merge_slashes` that the override sets.
pub open spec fn override_merge_slashes(o: Option<HttpConnectionManagerView>) -> Option<bool> {
    match o {
        Some(h) => h.merge_slashes,
        None => None,
    }
}

/// The `use_remote_address` entry that the override sets.
pub open spec fn override_use_remote_address(o: Option<HttpConnectionManagerView>) -> Option<Yaml> {
    match o {
        Some(h) => match h.use_remote_address {
            Some(v) => Some(Yaml::Bool(v)),
            None => None,
        },
        None => None,
    }
}

/// The `xff_num_trusted_hops` entry that the override sets.
pub open spec fn override_trusted_hops(o: Option<HttpConnectionManagerView>) -> Option<Yaml> {
    match o {
        Some(h) => match h.xff_num_trusted_hops {
            Some(v) => Some(Yaml::Number(v as u64)),
            None => None,
        },
        None => None,
    }
}

/// The `stream_idle_timeout` entry that the override sets.
pub open spec fn override_idle_timeout(o: Option<HttpConnectionManagerView>) -> Option<Yaml> {
    match o {
        Some(h) => optional_str(h.stream_idle_timeout),
        None => None,
    }
}

/// An HTTP connection manager.
///
/// - `stat_prefix`: the override, else the given label.
/// - `normalize_path`, `merge_slashes`: the domain's explicit value, else the
///   override, else `true`.
/// - `use_remote_address`, `xff_num_trusted_hops`, `stream_idle_timeout`:
///   the override, and no entry at all without one.
pub open spec fn hcm_yaml(
    stat_prefix: Seq<char>,
    log: AccessLogView,
    route_config: Yaml,
    http_filters: Seq<Yaml>,
    overrides: Option<HttpConnectionManagerView>,
    domain_normalize_path: Option<bool>,
    domain_merge_slashes: Option<bool>,
    signing: Option<AwsSigningView>,
) -> Yaml {
    Yaml::Dict(
        with_optional(
            with_optional(
                with_optional(
                    typed(
                        "type.googleapis.com/envoy.extensions.filters.network.http_connection_manager.v3.HttpConnectionManager"@,
                    ).push(
                        (
                            "stat_prefix"@,
                            text(by_precedence(seq![override_stat_prefix(overrides)], stat_prefix)),
                        ),
                    ).push(
                        (
                            "normalize_path"@,
                            Yaml::Bool(
                                by_precedence(
                                    seq![domain_normalize_path, override_normalize_path(overrides)],
                                    true,
                                ),
                            ),
                        ),
                    ).push(
                        (
                            "merge_slashes"@,
                            Yaml::Bool(
                                by_precedence(
                                    seq![domain_merge_slashes, override_merge_slashes(overrides)],
                                    true,
                                ),
                            ),
                        ),
                    ),
                    "use_remote_address"@,
                    override_use_remote_address(overrides),
                ),
                "xff_num_trusted_hops"@,
                override_trusted_hops(overrides),
            ),
            "stream_idle_timeout"@,
            override_idle_timeout(overrides),
        ).push(("access_log"@, access_log_yaml(log))).push(("route_config"@, route_config)).push(
            ("http_filters"@, Yaml::List(signed_filters(http_filters, signing))),
        ),
    )
}

/* ---------------- routes ---------------- */

/// A header matcher: the name of the header, and the exact value if one
/// is asked for.
pub open spec fn header_matcher_yaml(h: HeaderMatcherView) -> Yaml {
    Yaml::Dict(
        with_optional(
            no_entries().push(("name"@, text(h.name))),
            "exact_match"@,
            optional_str(h.exact_match),
        ),
    )
}

/// The header matchers of a match, in their order.
pub open spec fn header_matchers_yaml(headers: Seq<HeaderMatcherView>) -> Seq<Yaml> {
    headers.map_values(|h: HeaderMatcherView| header_matcher_yaml(h))
}

/// The path part of a match: the prefix if there is one, else the exact
/// path if there is one, else nothing.
pub open spec fn path_match_entries(m: MatchView) -> Entries {
    match m.prefix {
        Some(p) => no_entries().push(("prefix"@, text(p))),
        None => match m.path {
            Some(p) => no_entries().push(("path"@, text(p))),
            None => no_entries(),
        },
    }
}

/// The match of a route: its path part, and its header matchers when it
/// has any.
pub open spec fn match_yaml(m: MatchView) -> Yaml {
    Yaml::Dict(
        with_optional(
            path_match_entries(m),
            "headers"@,
            if m.headers.len() > 0 {
                Some(Yaml::List(header_matchers_yaml(m.headers)))
            } else {
                None
            },
        ),
    )
}

/// The short-circuit answer of a route: a status code and, if given, a
/// literal body.
pub open spec fn direct_response_yaml(dr: DirectResponseView) -> Yaml {
    Yaml::Dict(
        with_optional(
            no_entries().push(("status"@, Yaml::Number(dr.status as u64))),
            "body"@,
            match dr.body {
                Some(body) => Some(dict_of("inline_string"@, text(body))),
                None => None,
            },
        ),
    )
}

/// The timeout of a route: its own, else the global default.
pub open spec fn route_timeout(r: RouteView, defaults: DefaultsView) -> Seq<char> {
    by_precedence(seq![r.timeout], defaults.route_timeout)
}

/// The action of a route that goes upstream: the cluster if one is named,
/// the resolved timeout, and the prefix rewrite if one is configured.
pub open spec fn route_action_yaml(r: RouteView, defaults: DefaultsView) -> Yaml {
    Yaml::Dict(
        with_optional(
            with_optional(
                no_entries(),
                "cluster"@,
                optional_str(r.to_upstream),
            ).push(("timeout"@, text(route_timeout(r, defaults)))),
            "prefix_rewrite"@,
            optional_str(r.prefix_rewrite),
        ),
    )
}

/// The name of the rate-limit policy that a route refers to.
pub open spec fn rate_limit_ref(r: RouteView) -> Option<Seq<char>> {
    match r.per_filter_config {
        Some(p) => p.local_ratelimit,
        None => None,
    }
}

/// The stat prefix of a policy: its own, else `rl_` and the policy's name.
pub open spec fn policy_stat_prefix(name: Seq<char>, bucket: TokenBucketView) -> Seq<char> {
    by_precedence(seq![bucket.stat_prefix], "rl_"@ + name)
}

/// The parameters of a token bucket.
pub open spec fn token_bucket_yaml(bucket: TokenBucketView) -> Yaml {
    Yaml::Dict(
        no_entries().push(("max_tokens"@, Yaml::Number(bucket.max_tokens as u64))).push(
            ("tokens_per_fill"@, Yaml::Number(bucket.tokens_per_fill as u64)),
        ).push(("fill_interval"@, text(bucket.fill_interval))),
    )
}

/// The per-route filter override that applies a rate-limit policy.
pub open spec fn rate_limit_override_yaml(name: Seq<char>, bucket: TokenBucketView) -> Yaml {
    dict_of(
        "envoy.filters.http.local_ratelimit"@,
        Yaml::Dict(
            typed(
                "type.googleapis.com/envoy.extensions.filters.http.local_ratelimit.v3.LocalRateLimit"@,
            ).push(("stat_prefix"@, text(policy_stat_prefix(name, bucket)))).push(
                ("token_bucket"@, token_bucket_yaml(bucket)),
            ),
        ),
    )
}

/// Whether the generator can emit the route: an upstream route that names a
/// rate-limit policy needs that policy.
pub open spec fn route_ready(r: RouteView, policies: Map<Seq<char>, TokenBucketView>) -> bool {
    r.direct_response is None ==> (rate_limit_ref(r) matches Some(name) ==> policies.contains_key(
        name,
    ))
}

/// One route. A direct response wins over everything else that the route
/// sets: then only the match and the response are emitted.
pub open spec fn route_yaml(
    r: RouteView,
    defaults: DefaultsView,
    policies: Map<Seq<char>, TokenBucketView>,
) -> Yaml {
    match r.direct_response {
        Some(dr) => Yaml::Dict(
            no_entries().push(("match"@, match_yaml(r.m))).push(
                ("direct_response"@, direct_response_yaml(dr)),
            ),
        ),
        None => Yaml::Dict(
            with_optional(
                no_entries().push(("match"@, match_yaml(r.m))).push(
                    ("route"@, route_action_yaml(r, defaults)),
                ),
                "typed_per_filter_config"@,
                match rate_limit_ref(r) {
                    Some(name) => Some(rate_limit_override_yaml(name, policies[name])),
                    None => None,
                },
            ),
        ),
    }
}

/* ---------------- clusters ---------------- */

/// One endpoint of a cluster.
pub open spec fn lb_endpoint_yaml(ep: EndpointView) -> Yaml {
    dict_of("endpoint"@, dict_of("address"@, socket_addr_yaml("TCP"@, ep.address, ep.port)))
}

/// The endpoints of a cluster, in their order.
pub open spec fn lb_endpoints_yaml(endpoints: Seq<EndpointView>) -> Seq<Yaml> {
    endpoints.map_values(|ep: EndpointView| lb_endpoint_yaml(ep))
}

/// Where the endpoints of a cluster are.
pub open spec fn load_assignment_yaml(u: UpstreamView) -> Yaml {
    Yaml::Dict(
        no_entries().push(("cluster_name"@, text(u.name))).push(
            (
                "endpoints"@,
                list_of(dict_of("lb_endpoints"@, Yaml::List(lb_endpoints_yaml(u.endpoints)))),
            ),
        ),
    )
}

/// One cluster: the upstream's settings, the HTTP/2 marker when it is asked
/// for, and the endpoints in their order.
pub open spec fn cluster_yaml(u: UpstreamView) -> Yaml {
    Yaml::Dict(
        with_optional(
            no_entries().push(("name"@, text(u.name))).push(
                ("connect_timeout"@, text(u.connect_timeout)),
            ).push(("type"@, text(u.type_))).push(("lb_policy"@, text(u.lb_policy))),
            "http2_protocol_options"@,
            if u.http2 {
                Some(Yaml::Dict(no_entries()))
            } else {
                None
            },
        ).push(("load_assignment"@, load_assignment_yaml(u))),
    )
}

/// One cluster per upstream, in the order of the upstreams.
pub open spec fn clusters_of(upstreams: Seq<UpstreamView>) -> Seq<Yaml> {
    upstreams.map_values(|u: UpstreamView| cluster_yaml(u))
}

/// The cluster list: one cluster per upstream, ascending by name; upstreams
/// of one name keep their input order.
pub open spec fn clusters_yaml(upstreams: Seq<UpstreamView>) -> Yaml {
    Yaml::List(clusters_of(sorted_by_name(upstreams)))
}

/* ---------------- listeners ---------------- */

/// A listener without TLS: one chain, whose connection manager has the
/// router as its only filter and no override.
pub open spec fn plain_listener_yaml(
    name: Seq<char>,
    address: Seq<char>,
    port: u16,
    stat_prefix: Seq<char>,
    log: AccessLogView,
    route_config: Yaml,
) -> Yaml {
    Yaml::Dict(
        no_entries().push(("name"@, text(name))).push(
            ("address"@, socket_addr_yaml("TCP"@, address, port)),
        ).push(
            (
                "filter_chains"@,
                list_of(
                    http_filter_chain_yaml(
                        hcm_yaml(
                            stat_prefix,
                            log,
                            route_config,
                            Seq::empty().push(router_filter_yaml()),
                            None,
                            None,
                            None,
                            None,
                        ),
                    ),
                ),
            ),
        ),
    )
}

/// The plain HTTP listener on port 80: one catch-all virtual host whose one
/// route sends `/` to the default HTTP upstream.
pub open spec fn http_listener_yaml(defaults: DefaultsView, log: AccessLogView) -> Yaml {
    plain_listener_yaml(
        "http_listener"@,
        "0.0.0.0"@,
        80,
        "external_http"@,
        log,
        route_config_yaml(
            "external_http_route"@,
            "all_hosts"@,
            Seq::empty().push("*"@),
            Seq::empty().push(
                prefix_route_yaml(
                    "/"@,
                    defaults.http_default_upstream,
                    Some(defaults.route_timeout),
                ),
            ),
            None,
        ),
    )
}

/// Whether a domain terminates TLS here.
pub open spec fn is_terminate(d: DomainView) -> bool {
    d.mode == "terminate_https_443"@
}

/// Whether a route names a rate-limit policy.
pub open spec fn uses_rate_limit(r: RouteView) -> bool {
    rate_limit_ref(r) is Some
}

/// Whether any route of the sequence names a rate-limit policy.
pub open spec fn any_uses_rate_limit(routes: Seq<RouteView>) -> bool {
    exists|i: int| 0 <= i < routes.len() && uses_rate_limit(#[trigger] routes[i])
}

/// The stat prefix of a domain's rate-limit filter.
pub open spec fn rate_limit_filter_prefix(d: DomainView) -> Seq<char> {
    by_precedence(
        seq![
            match d.http_connection_manager {
                Some(h) => h.local_ratelimit_stat_prefix,
                None => None,
            },
        ],
        "default_local_ratelimit"@,
    )
}

/// The filter that a declared extra filter stands for.
pub open spec fn extra_filter_yaml(f: HttpFilterSpec) -> Yaml {
    match f {
        HttpFilterSpec::GrpcWeb => grpc_web_filter_yaml(),
    }
}

/// Declared extra filters, in their order.
pub open spec fn extra_filters_yaml(filters: Seq<HttpFilterSpec>) -> Seq<Yaml> {
    filters.map_values(|f: HttpFilterSpec| extra_filter_yaml(f))
}

/// The filters that a domain declares on its connection-manager override,
/// in declared order.
pub open spec fn extra_filters(d: DomainView) -> Seq<Yaml> {
    match d.http_connection_manager {
        Some(h) => extra_filters_yaml(h.extra_http_filters),
        None => Seq::empty(),
    }
}

/// The rate-limit filter of a domain, present when any of its routes names
/// a rate-limit policy.
pub open spec fn rate_limit_filters(d: DomainView) -> Seq<Yaml> {
    if any_uses_rate_limit(d.routes) {
        Seq::empty().push(local_ratelimit_filter_yaml(rate_limit_filter_prefix(d)))
    } else {
        Seq::empty()
    }
}

/// The filters of a domain before signing is applied: the rate-limit filter
/// if needed, the declared extra filters, and the router last.
pub open spec fn plain_http_filters(d: DomainView) -> Seq<Yaml> {
    rate_limit_filters(d) + extra_filters(d) + Seq::empty().push(router_filter_yaml())
}

/// The HTTP filter list of a terminate-mode domain.
pub open spec fn domain_http_filters(d: DomainView) -> Seq<Yaml> {
    signed_filters(plain_http_filters(d), d.aws_signing)
}

/// The routes of a domain, in their order.
pub open spec fn routes_yaml(
    routes: Seq<RouteView>,
    defaults: DefaultsView,
    policies: Map<Seq<char>, TokenBucketView>,
) -> Seq<Yaml> {
    routes.map_values(|r: RouteView| route_yaml(r, defaults, policies))
}

/// The connection manager of a terminate-mode domain.
pub open spec fn domain_hcm_yaml(
    d: DomainView,
    defaults: DefaultsView,
    log: AccessLogView,
    policies: Map<Seq<char>, TokenBucketView>,
) -> Yaml {
    hcm_yaml(
        sanitized(d.domain) + "_https"@,
        log,
        route_config_yaml(
            sanitized(d.domain) + "_route"@,
            sanitized(d.domain) + "_vhost"@,
            Seq::empty().push(d.domain),
            routes_yaml(d.routes, defaults, policies),
            None,
        ),
        plain_http_filters(d),
        d.http_connection_manager,
        d.normalize_path,
        d.merge_slashes,
        d.aws_signing,
    )
}

/// The filter chain of a terminate-mode domain: matched by the exact server
/// name, with the domain's TLS transport and its connection manager.
pub open spec fn terminate_chain_yaml(
    d: DomainView,
    defaults: DefaultsView,
    log: AccessLogView,
    policies: Map<Seq<char>, TokenBucketView>,
) -> Yaml {
    Yaml::Dict(
        no_entries().push(
            ("filter_chain_match"@, dict_of("server_names"@, list_of(text(d.domain)))),
        ).push(("transport_socket"@, downstream_tls_yaml(d.tls->0))).push(
            ("filters"@, list_of(hcm_filter_yaml(domain_hcm_yaml(d, defaults, log, policies)))),
        ),
    )
}

/// The trailing chain without a match: raw TCP to the passthrough upstream.
pub open spec fn passthrough_chain_yaml(defaults: DefaultsView) -> Yaml {
    dict_of(
        "filters"@,
        list_of(
            tcp_proxy_filter_yaml("external_tls_passthrough"@, defaults.tls_passthrough_upstream),
        ),
    )
}

/// The terminate-mode domains, in fragment order.
pub open spec fn terminate_domains(domains: Seq<DomainView>) -> Seq<DomainView> {
    domains.filter(|d: DomainView| is_terminate(d))
}

/// One chain per terminate-mode domain, in fragment order.
pub open spec fn terminate_chains(
    domains: Seq<DomainView>,
    defaults: DefaultsView,
    log: AccessLogView,
    policies: Map<Seq<char>, TokenBucketView>,
) -> Seq<Yaml> {
    terminate_domains(domains).map_values(
        |d: DomainView| terminate_chain_yaml(d, defaults, log, policies),
    )
}

/// The filter chains of the TLS listener: one per terminate-mode domain in
/// fragment order, then the passthrough chain. A proxy takes the first
/// chain whose match succeeds, so the chain without a match stays last.
pub open spec fn filter_chains(
    domains: Seq<DomainView>,
    defaults: DefaultsView,
    log: AccessLogView,
    policies: Map<Seq<char>, TokenBucketView>,
) -> Seq<Yaml> {
    terminate_chains(domains, defaults, log, policies).push(passthrough_chain_yaml(defaults))
}

/// The listener filter that reads the server name before a chain is chosen.
pub open spec fn tls_inspector_yaml() -> Yaml {
    named_config_yaml(
        "envoy.filters.listener.tls_inspector"@,
        typed(
            "type.googleapis.com/envoy.extensions.filters.listener.tls_inspector.v3.TlsInspector"@,
        ),
    )
}

/// The TLS listener on port 443.
pub open spec fn https_listener_yaml(
    defaults: DefaultsView,
    log: AccessLogView,
    domains: Seq<DomainView>,
    policies: Map<Seq<char>, TokenBucketView>,
) -> Yaml {
    Yaml::Dict(
        no_entries().push(("name"@, text("https_sni_listener"@))).push(
            ("address"@, socket_addr_yaml("TCP"@, "0.0.0.0"@, 443)),
        ).push(("listener_filters"@, list_of(tls_inspector_yaml()))).push(
            ("filter_chains"@, Yaml::List(filter_chains(domains, defaults, log, policies))),
        ),
    )
}

/// The timeout of an internal listener's route: its own, else the global
/// default.
pub open spec fn internal_timeout(internal: InternalHttpListenerView, defaults: DefaultsView) -> Seq<
    char,
> {
    by_precedence(seq![internal.timeout], defaults.route_timeout)
}

/// An internal listener: plain HTTP on its own address, one virtual host
/// for its domains, and one route that sends `/` to its upstream.
pub open spec fn internal_listener_yaml(
    defaults: DefaultsView,
    log: AccessLogView,
    internal: InternalHttpListenerView,
) -> Yaml {
    plain_listener_yaml(
        internal.name,
        internal.address,
        internal.port,
        internal.stat_prefix,
        log,
        route_config_yaml(
            internal.name + "_route"@,
            internal.name + "_vhost"@,
            internal.domains,
            Seq::empty().push(
                prefix_route_yaml(
                    "/"@,
                    internal.to_upstream,
                    Some(internal_timeout(internal, defaults)),
                ),
            ),
            Some(internal.request_headers_to_add),
        ),
    )
}

/// The internal listeners, in their declared order.
pub open spec fn internal_listeners(
    defaults: DefaultsView,
    log: AccessLogView,
    internals: Seq<InternalHttpListenerView>,
) -> Seq<Yaml> {
    internals.map_values(|l: InternalHttpListenerView| internal_listener_yaml(defaults, log, l))
}

/// The listener list: plain HTTP, TLS, then the internal listeners in
/// their declared order.
pub open spec fn listeners(
    defaults: DefaultsView,
    log: AccessLogView,
    domains: Seq<DomainView>,
    policies: Map<Seq<char>, TokenBucketView>,
    listeners_spec: ListenersView,
) -> Seq<Yaml> {
    Seq::empty().push(http_listener_yaml(defaults, log)).push(
        https_listener_yaml(defaults, log, domains, policies),
    ) + internal_listeners(defaults, log, listeners_spec.internal_http_listeners)
}

/* ---------------- the document ---------------- */

/// What keeps a document from being generated.
pub enum Gap {
    /// A terminate-mode domain without TLS material.
    MissingTls { domain: Seq<char> },
    /// An upstream route of a terminate-mode domain that names a rate-limit
    /// policy which does not exist.
    UnknownRateLimitPolicy { domain: Seq<char>, policy: Seq<char> },
}

/// The policy that a route needs and does not find.
pub open spec fn route_gap(r: RouteView, policies: Map<Seq<char>, TokenBucketView>) -> Option<
    Seq<char>,
> {
    match rate_limit_ref(r) {
        Some(name) => if r.direct_response is None && !policies.contains_key(name) {
            Some(name)
        } else {
            None
        },
        None => None,
    }
}

/// The check of each route of a sequence, by position.
pub open spec fn route_checks(
    routes: Seq<RouteView>,
    policies: Map<Seq<char>, TokenBucketView>,
) -> spec_fn(int) -> Option<Seq<char>> {
    |j: int| route_gap(routes[j], policies)
}

/// What keeps the chain of a domain from being generated: its missing TLS
/// material, else the first missing policy among its routes.
pub open spec fn domain_gap(d: DomainView, policies: Map<Seq<char>, TokenBucketView>) -> Option<Gap> {
    if !is_terminate(d) {
        None
    } else if d.tls is None {
        Some(Gap::MissingTls { domain: d.domain })
    } else {
        match first_at(d.routes.len() as int, route_checks(d.routes, policies)) {
            Some(policy) => Some(Gap::UnknownRateLimitPolicy { domain: d.domain, policy }),
            None => None,
        }
    }
}

/// The check of each domain of a sequence, by position.
pub open spec fn domain_checks(
    domains: Seq<DomainView>,
    policies: Map<Seq<char>, TokenBucketView>,
) -> spec_fn(int) -> Option<Gap> {
    |i: int| domain_gap(domains[i], policies)
}

/// What keeps a document from being generated: the gap of the first domain
/// that has one.
pub open spec fn first_gap(domains: Seq<DomainView>, policies: Map<Seq<char>, TokenBucketView>) -> Option<
    Gap,
> {
    first_at(domains.len() as int, domain_checks(domains, policies))
}

/// Whether the generator can emit the chain of a domain: a terminate-mode
/// domain needs its TLS material, and each of its routes must be ready.
pub open spec fn domain_ready(d: DomainView, policies: Map<Seq<char>, TokenBucketView>) -> bool {
    is_terminate(d) ==> {
        &&& d.tls is Some
        &&& forall|j: int| 0 <= j < d.routes.len() ==> route_ready(#[trigger] d.routes[j], policies)
    }
}

/// Whether a document can be generated from the domains.
pub open spec fn domains_ready(
    domains: Seq<DomainView>,
    policies: Map<Seq<char>, TokenBucketView>,
) -> bool {
    forall|i: int| 0 <= i < domains.len() ==> domain_ready(#[trigger] domains[i], policies)
}

/// A domain is ready exactly when it has no gap.
pub proof fn lemma_domain_ready(d: DomainView, policies: Map<Seq<char>, TokenBucketView>)
    ensures
        domain_ready(d, policies) <==> domain_gap(d, policies) is None,
{
    lemma_first_at_none(d.routes.len() as int, route_checks(d.routes, policies));
    if is_terminate(d) && d.tls is Some {
        if domain_gap(d, policies) is None {
            assert forall|j: int| 0 <= j < d.routes.len() implies route_ready(
                #[trigger] d.routes[j],
                policies,
            ) by {
                assert(route_checks(d.routes, policies)(j) is None);
            }
        }
        if domain_ready(d, policies) {
            assert forall|j: int| 0 <= j < d.routes.len() implies (#[trigger] route_checks(
                d.routes,
                policies,
            )(j)) is None by {
                assert(route_ready(d.routes[j], policies));
            }
        }
    }
}

/// A document can be generated exactly when no domain has a gap.
pub proof fn lemma_domains_ready(domains: Seq<DomainView>, policies: Map<Seq<char>, TokenBucketView>)
    ensures
        domains_ready(domains, policies) <==> first_gap(domains, policies) is None,
{
    lemma_first_at_none(domains.len() as int, domain_checks(domains, policies));
    if first_gap(domains, policies) is None {
        assert forall|i: int| 0 <= i < domains.len() implies domain_ready(
            #[trigger] domains[i],
            policies,
        ) by {
            assert(domain_checks(domains, policies)(i) is None);
            lemma_domain_ready(domains[i], policies);
        }
    }
    if domains_ready(domains, policies) {
        assert forall|i: int| 0 <= i < domains.len() implies (#[trigger] domain_checks(
            domains,
            policies,
        )(i)) is None by {
            assert(domain_ready(domains[i], policies));
            lemma_domain_ready(domains[i], policies);
        }
    }
}

/// The chains of the first `i + 1` domains: those of the first `i`, and
/// the chain of the next domain if it terminates TLS.
pub proof fn lemma_terminate_chains_step(
    domains: Seq<DomainView>,
    i: int,
    defaults: DefaultsView,
    log: AccessLogView,
    policies: Map<Seq<char>, TokenBucketView>,
)
    requires
        0 <= i < domains.len(),
    ensures
        terminate_chains(domains.take(i + 1), defaults, log, policies) == if is_terminate(
            domains[i],
        ) {
            terminate_chains(domains.take(i), defaults, log, policies).push(
                terminate_chain_yaml(domains[i], defaults, log, policies),
            )
        } else {
            terminate_chains(domains.take(i), defaults, log, policies)
        },
{
    reveal(Seq::filter);
    assert(domains.take(i + 1).drop_last() =~= domains.take(i));
    assert(domains.take(i + 1).last() == domains[i]);
    if is_terminate(domains[i]) {
        assert(terminate_domains(domains.take(i + 1)) == terminate_domains(domains.take(i)).push(
            domains[i],
        ));
        assert(terminate_chains(domains.take(i + 1), defaults, log, policies)
            =~= terminate_chains(domains.take(i), defaults, log, policies).push(
            terminate_chain_yaml(domains[i], defaults, log, policies),
        ));
    } else {
        assert(terminate_domains(domains.take(i + 1)) == terminate_domains(domains.take(i)));
    }
}

/// The whole bootstrap document: the admin block, then the static
/// resources with the listener list and the cluster list.
pub open spec fn envoy_yaml(loaded: LoadedView) -> Yaml {
    Yaml::Dict(
        no_entries().push(("admin"@, admin_yaml(loaded.admin, loaded.access_log))).push(
            (
                "static_resources"@,
                Yaml::Dict(
                    no_entries().push(
                        (
                            "listeners"@,
                            Yaml::List(
                                listeners(
                                    loaded.defaults,
                                    loaded.access_log,
                                    loaded.domains,
                                    loaded.policies,
                                    loaded.listeners,
                                ),
                            ),
                        ),
                    ).push(("clusters"@, clusters_yaml(loaded.upstreams))),
                ),
            ),
        ),
    )
}

/* ---------------- what holds of every document ---------------- */

/// The last filter of a domain: the router, or its signing variant when
/// the domain signs its upstream requests.
pub open spec fn terminal_filter(d: DomainView) -> Yaml {
    if signing_enabled(d.aws_signing) {
        signing_router_filter_yaml(d.aws_signing->0)
    } else {
        router_filter_yaml()
    }
}

/// Which filters are routing filters: the router and its signing variant
/// are, the rate-limit filter and the gRPC-Web filter are not.
pub proof fn lemma_routing_filters(stat_prefix: Seq<char>, signing: AwsSigningView)
    ensures
        is_router_filter(router_filter_yaml()),
        is_router_filter(signing_router_filter_yaml(signing)),
        !is_router_filter(local_ratelimit_filter_yaml(stat_prefix)),
        !is_router_filter(grpc_web_filter_yaml()),
{
    reveal_strlit("envoy.filters.http.router");
    reveal_strlit("envoy.filters.http.local_ratelimit");
    reveal_strlit("envoy.filters.http.grpc_web");
    assert("envoy.filters.http.router"@.len() == 25);
    assert("envoy.filters.http.local_ratelimit"@.len() == 34);
    assert("envoy.filters.http.grpc_web"@.len() == 27);
}

/// The HTTP filter list of a terminate-mode domain is the rate-limit
/// filter if any route names a policy, then the extra filters that the
/// domain declares, then the terminal routing filter. Signing replaces the
/// router and leaves every other filter as it is.
pub proof fn lemma_domain_http_filters(d: DomainView)
    ensures
        domain_http_filters(d) == rate_limit_filters(d) + extra_filters(d) + Seq::empty().push(
            terminal_filter(d),
        ),
{
    let plain = plain_http_filters(d);
    let signed = domain_http_filters(d);
    let expected = rate_limit_filters(d) + extra_filters(d) + Seq::empty().push(terminal_filter(d));
    if signing_enabled(d.aws_signing) {
        let s = d.aws_signing->0;
        lemma_routing_filters(rate_limit_filter_prefix(d), s);
        assert(signed.len() == expected.len());
        assert forall|k: int| 0 <= k < signed.len() implies signed[k] == expected[k] by {
            let first = rate_limit_filters(d).len();
            if k < first {
                assert(plain[k] == local_ratelimit_filter_yaml(rate_limit_filter_prefix(d)));
            } else if k < first + extra_filters(d).len() {
                assert(plain[k] == extra_filters(d)[k - first]);
                let h = d.http_connection_manager->0;
                assert(extra_filters(d)[k - first] == extra_filter_yaml(
                    h.extra_http_filters[k - first],
                ));
                assert(plain[k] == grpc_web_filter_yaml());
            } else {
                assert(plain[k] == router_filter_yaml());
            }
        }
        assert(signed =~= expected);
    } else {
        assert(signed =~= expected);
    }
}

/// A terminate-mode domain without a route that names a rate-limit policy
/// and without declared extra filters has the terminal routing filter as
/// its only filter.
pub proof fn lemma_filters_without_rate_limit(d: DomainView)
    requires
        !any_uses_rate_limit(d.routes),
        extra_filters(d).len() == 0,
    ensures
        domain_http_filters(d) == Seq::empty().push(terminal_filter(d)),
        !signing_enabled(d.aws_signing) ==> domain_http_filters(d) == Seq::empty().push(
            router_filter_yaml(),
        ),
{
    lemma_domain_http_filters(d);
    assert(rate_limit_filters(d) + extra_filters(d) + Seq::empty().push(terminal_filter(d))
        =~= Seq::empty().push(terminal_filter(d)));
}

/// A terminate-mode domain with a route that names a rate-limit policy has
/// the rate-limit filter as its first filter and the terminal routing
/// filter as its last; without declared extra filters these two are the
/// whole list.
pub proof fn lemma_filters_with_rate_limit(d: DomainView)
    requires
        any_uses_rate_limit(d.routes),
    ensures
        domain_http_filters(d).len() == 2 + extra_filters(d).len(),
        domain_http_filters(d).first() == local_ratelimit_filter_yaml(rate_limit_filter_prefix(d)),
        domain_http_filters(d).last() == terminal_filter(d),
        extra_filters(d).len() == 0 ==> domain_http_filters(d) == Seq::empty().push(
            local_ratelimit_filter_yaml(rate_limit_filter_prefix(d)),
        ).push(terminal_filter(d)),
{
    lemma_domain_http_filters(d);
    if extra_filters(d).len() == 0 {
        assert(rate_limit_filters(d) + extra_filters(d) + Seq::empty().push(terminal_filter(d))
            =~= Seq::empty().push(local_ratelimit_filter_yaml(rate_limit_filter_prefix(d))).push(
            terminal_filter(d),
        ));
    }
}

/// The entry of a mapping under a key, if the value is a mapping with that
/// key.
pub open spec fn entry_of(value: Yaml, key: Seq<char>) -> Option<Yaml> {
    match value {
        Yaml::Dict(entries) => lookup(entries, key),
        _ => None,
    }
}

/// A route that matches a path prefix and goes to an upstream has that
/// prefix as its match and that upstream as the cluster of its action.
pub proof fn lemma_route_to_upstream(
    r: RouteView,
    defaults: DefaultsView,
    policies: Map<Seq<char>, TokenBucketView>,
)
    requires
        r.m.prefix is Some,
        r.m.headers.len() == 0,
        r.to_upstream is Some,
        r.direct_response is None,
    ensures
        entry_of(route_yaml(r, defaults, policies), "match"@) == Some(
            dict_of("prefix"@, text(r.m.prefix->0)),
        ),
        entry_of(route_yaml(r, defaults, policies), "route"@) == Some(
            route_action_yaml(r, defaults),
        ),
        entry_of(route_action_yaml(r, defaults), "cluster"@) == Some(text(r.to_upstream->0)),
{
    lemma_keys();
    reveal_with_fuel(lookup, 3);
    let entries = route_yaml(r, defaults, policies)->Dict_0;
    assert(entries[0] == ("match"@, match_yaml(r.m)));
    assert(entries.drop_first()[0] == entries[1]);
}

/// The options of a connection manager that have no default: each stands
/// in the document with the value of the override, and is left out of the
/// document when the override does not set it.
pub proof fn lemma_options_without_default(
    stat_prefix: Seq<char>,
    log: AccessLogView,
    route_config: Yaml,
    http_filters: Seq<Yaml>,
    overrides: Option<HttpConnectionManagerView>,
    domain_normalize_path: Option<bool>,
    domain_merge_slashes: Option<bool>,
    signing: Option<AwsSigningView>,
)
    ensures
        ({
            let hcm = hcm_yaml(
                stat_prefix,
                log,
                route_config,
                http_filters,
                overrides,
                domain_normalize_path,
                domain_merge_slashes,
                signing,
            );
            &&& entry_of(hcm, "use_remote_address"@) == override_use_remote_address(overrides)
            &&& entry_of(hcm, "xff_num_trusted_hops"@) == override_trusted_hops(overrides)
            &&& entry_of(hcm, "stream_idle_timeout"@) == override_idle_timeout(overrides)
        }),
{
    broadcast use crate::yaml::group_lookup;

    lemma_keys();
}

/// Every connection manager and the admin block write their access log to
/// the one configured sink.
pub proof fn lemma_one_access_log(
    admin: AdminView,
    stat_prefix: Seq<char>,
    log: AccessLogView,
    route_config: Yaml,
    http_filters: Seq<Yaml>,
    overrides: Option<HttpConnectionManagerView>,
    domain_normalize_path: Option<bool>,
    domain_merge_slashes: Option<bool>,
    signing: Option<AwsSigningView>,
)
    ensures
        entry_of(admin_yaml(admin, log), "access_log"@) == Some(access_log_yaml(log)),
        entry_of(
            hcm_yaml(
                stat_prefix,
                log,
                route_config,
                http_filters,
                overrides,
                domain_normalize_path,
                domain_merge_slashes,
                signing,
            ),
            "access_log"@,
        ) == Some(access_log_yaml(log)),
{
    broadcast use crate::yaml::group_lookup;

    lemma_keys();
}

/// The server names that a filter chain matches, if it matches any.
pub open spec fn chain_match(chain: Yaml) -> Option<Yaml> {
    entry_of(chain, "filter_chain_match"@)
}

/// The TLS listener has one chain per terminate-mode domain, each matched
/// by the name of its domain, and then exactly one chain without a match,
/// the passthrough chain, which is the last.
pub proof fn lemma_passthrough_chain_last(
    domains: Seq<DomainView>,
    defaults: DefaultsView,
    log: AccessLogView,
    policies: Map<Seq<char>, TokenBucketView>,
)
    ensures
        filter_chains(domains, defaults, log, policies).len() == terminate_domains(domains).len()
            + 1,
        filter_chains(domains, defaults, log, policies).last() == passthrough_chain_yaml(defaults),
        chain_match(passthrough_chain_yaml(defaults)) is None,
        forall|k: int|
            0 <= k < terminate_domains(domains).len() ==> chain_match(
                #[trigger] filter_chains(domains, defaults, log, policies)[k],
            ) == Some(dict_of("server_names"@, list_of(text(terminate_domains(domains)[k].domain)))),
{
    lemma_keys();
    reveal_with_fuel(lookup, 2);
    let chains = filter_chains(domains, defaults, log, policies);
    let entries = passthrough_chain_yaml(defaults)->Dict_0;
    assert(entries.drop_first().len() == 0);
    assert forall|k: int| 0 <= k < terminate_domains(domains).len() implies chain_match(
        #[trigger] chains[k],
    ) == Some(dict_of("server_names"@, list_of(text(terminate_domains(domains)[k].domain)))) by {
        let d = terminate_domains(domains)[k];
        assert(chains[k] == terminate_chain_yaml(d, defaults, log, policies));
    }
}

/// Without a terminate-mode domain the passthrough chain is the only chain.
pub proof fn lemma_chains_without_domains(
    domains: Seq<DomainView>,
    defaults: DefaultsView,
    log: AccessLogView,
    policies: Map<Seq<char>, TokenBucketView>,
)
    requires
        forall|i: int| 0 <= i < domains.len() ==> !is_terminate(#[trigger] domains[i]),
    ensures
        filter_chains(domains, defaults, log, policies) == Seq::empty().push(
            passthrough_chain_yaml(defaults),
        ),
{
    lemma_no_terminate_domains(domains);
    assert(filter_chains(domains, defaults, log, policies) =~= Seq::empty().push(
        passthrough_chain_yaml(defaults),
    ));
}

proof fn lemma_no_terminate_domains(domains: Seq<DomainView>)
    requires
        forall|i: int| 0 <= i < domains.len() ==> !is_terminate(#[trigger] domains[i]),
    ensures
        terminate_domains(domains).len() == 0,
    decreases domains.len(),
{
    reveal(Seq::filter);
    if domains.len() > 0 {
        assert forall|i: int| 0 <= i < domains.drop_last().len() implies !is_terminate(
            #[trigger] domains.drop_last()[i],
        ) by {
            assert(domains.drop_last()[i] == domains[i]);
        }
        lemma_no_terminate_domains(domains.drop_last());
        assert(!is_terminate(domains[domains.len() - 1]));
    }
}

/// The listener list holds the plain HTTP listener, then the TLS listener,
/// then one listener for each internal listener that is configured.
pub proof fn lemma_listeners(
    defaults: DefaultsView,
    log: AccessLogView,
    domains: Seq<DomainView>,
    policies: Map<Seq<char>, TokenBucketView>,
    listeners_spec: ListenersView,
)
    ensures
        listeners(defaults, log, domains, policies, listeners_spec).len() == 2
            + listeners_spec.internal_http_listeners.len(),
        listeners(defaults, log, domains, policies, listeners_spec)[0] == http_listener_yaml(
            defaults,
            log,
        ),
        listeners(defaults, log, domains, policies, listeners_spec)[1] == https_listener_yaml(
            defaults,
            log,
            domains,
            policies,
        ),
{
}

/// The name that a cluster carries.
pub open spec fn cluster_name(cluster: Yaml) -> Option<Yaml> {
    entry_of(cluster, "name"@)
}

/// The clusters of the document ascend by name, whatever the order of the
/// upstreams in the model, and there is one cluster for each upstream.
pub proof fn lemma_clusters_ascend(upstreams: Seq<UpstreamView>)
    ensures
        clusters_of(sorted_by_name(upstreams)).len() == upstreams.len(),
        forall|i: int|
            0 <= i < upstreams.len() ==> cluster_name(
                #[trigger] clusters_of(sorted_by_name(upstreams))[i],
            ) == Some(text(sorted_by_name(upstreams)[i].name)),
        forall|i: int, j: int|
            0 <= i < j < upstreams.len() ==> name_le(
                (#[trigger] sorted_by_name(upstreams)[i]).name,
                (#[trigger] sorted_by_name(upstreams)[j]).name,
            ),
        sorted_by_name(upstreams).to_multiset() == upstreams.to_multiset(),
{
    lemma_sorted_by_name(upstreams);
    let sorted = sorted_by_name(upstreams);
    assert forall|i: int| 0 <= i < upstreams.len() implies cluster_name(
        #[trigger] clusters_of(sorted)[i],
    ) == Some(text(sorted[i].name)) by {
        assert(clusters_of(sorted)[i] == cluster_yaml(sorted[i]));
    }
}

} // verus!
