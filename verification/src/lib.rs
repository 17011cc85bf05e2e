//! Fragment-based configuration for an Envoy edge proxy: the typed model,
//! the referential-integrity validator and the bootstrap-document generator.
//!
//! - [`model`] holds the configuration model, [`load`] the model of a whole
//!   run.
//! - [`validate`] checks the invariants of a model and reports the first
//!   that is violated.
//! - [`document`] says what the bootstrap document of a model is, and
//!   [`generate`] builds it as a `serde_yaml` value; [`yaml`] is the
//!   boundary to `serde_yaml`, [`order`] the order of cluster names.
//! - [`cli`] is the grammar of the command line.
//!
//! The validator and the generator do no I/O. What they compute is proved
//! against the contracts that their functions carry.

pub mod cli;
pub mod document;
pub mod first;
pub mod generate;
pub mod load;
pub mod model;
pub mod order;
pub mod text;
pub mod validate;
pub mod yaml;

pub use cli::{Cli, Command, UsageError};
pub use generate::{
    downstream_tls_socket, filter_chain_http, find_gap, gen_admin, gen_cluster, gen_clusters,
    gen_http_80_listener, gen_https_443_sni_listener, gen_internal_http_listener, gen_listeners,
    generate_envoy_yaml, header_value_option, http_connection_manager,
    http_connection_manager_with_domain, http_filter_grpc_web,
    http_filter_local_ratelimit_default, http_filter_router, http_filter_router_with_aws_signing,
    match_to_value, resolve, route_config_single_vhost, route_from_spec,
    route_prefix_to_cluster, socket_addr, stdout_access_log, tcp_proxy_filter,
    InvariantViolation,
};
pub use load::{is_fragment_file_name, Loaded};
pub use model::{
    default_admin_address, default_admin_port, default_cluster_type, default_connect_timeout,
    default_container_config_path, default_envoy_bin, default_envoy_user, default_garage_region,
    default_http_upstream, default_lb_policy, default_log_path, default_log_type, default_mode,
    default_native_config_path, default_route_timeout, default_s3_service,
    default_tls_passthrough_upstream, default_unsigned_payload, default_use_env_credentials,
    AccessLogSpec, AdminSpec, AwsSigningSpec, DefaultsSpec, DirectResponseSpec, DomainSpec,
    Endpoint, HeaderMatcher, HeaderValue, HeaderValueOption, HttpConnectionManagerSpec,
    HttpFilterSpec, InternalHttpListenerSpec, ListenersSpec, MatchSpec, PerFilterConfigRef,
    PoliciesSpec, RouteSpec, RuntimeSpec, TlsSpec, TokenBucket, UpstreamSpec,
    ValidateSpec,
};
pub use order::{name_at_most, order_by_name};
pub use text::{sanitize_name, str_eq};
pub use validate::{validate_model, ValidationError};
