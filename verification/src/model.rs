//! The typed configuration model: one type per kind of fragment, and the
//! values that fields take when a fragment leaves them out.

use indexmap::IndexMap;
use vstd::prelude::*;

verus! {

/// The values of a sequence as mathematical values.
pub open spec fn views<T: View>(items: Seq<T>) -> Seq<T::V> {
    items.map_values(|x: T| x@)
}

/// An optional value as a mathematical value.
pub open spec fn optional_view<T: View>(o: Option<T>) -> Option<T::V> {
    match o {
        Some(x) => Some(x@),
        None => None,
    }
}

/// Bind address and port of the management interface.
#[derive(Debug)]
pub struct AdminSpec {
    pub address: String,
    pub port: u16,
}

/// The mathematical value of [`AdminSpec`].
pub struct AdminView {
    pub address: Seq<char>,
    pub port: u16,
}

impl View for AdminSpec {
    type V = AdminView;

    open spec fn view(&self) -> AdminView {
        AdminView {
            address: self.address@,
            port: self.port,
        }
    }
}

/// The admin address of a fragment that gives none.
pub fn default_admin_address() -> (r: String)
    ensures
        r@ == "0.0.0.0"@,
{
    "0.0.0.0".to_string()
}

/// The admin port of a fragment that gives none.
pub fn default_admin_port() -> (r: u16)
    ensures
        r == 9901,
{
    9901
}

/// Global defaults: the route timeout and the two upstreams that the
/// listeners fall back to.
#[derive(Debug)]
pub struct DefaultsSpec {
    pub route_timeout: String,
    /// Upstream that the plain HTTP listener routes to.
    pub http_default_upstream: String,
    /// Upstream that the default TLS chain forwards to, undecrypted.
    pub tls_passthrough_upstream: String,
}

/// The mathematical value of [`DefaultsSpec`].
pub struct DefaultsView {
    pub route_timeout: Seq<char>,
    pub http_default_upstream: Seq<char>,
    pub tls_passthrough_upstream: Seq<char>,
}

impl View for DefaultsSpec {
    type V = DefaultsView;

    open spec fn view(&self) -> DefaultsView {
        DefaultsView {
            route_timeout: self.route_timeout@,
            http_default_upstream: self.http_default_upstream@,
            tls_passthrough_upstream: self.tls_passthrough_upstream@,
        }
    }
}

/// The route timeout of a fragment that gives none.
pub fn default_route_timeout() -> (r: String)
    ensures
        r@ == "60s"@,
{
    "60s".to_string()
}

/// The default HTTP upstream of a fragment that names none.
pub fn default_http_upstream() -> (r: String)
    ensures
        r@ == "cilium_http"@,
{
    "cilium_http".to_string()
}

/// The TLS passthrough upstream of a fragment that names none.
pub fn default_tls_passthrough_upstream() -> (r: String)
    ensures
        r@ == "cilium_tls"@,
{
    "cilium_tls".to_string()
}

/// Where access logs go. The only sink is a file path.
#[derive(Debug)]
pub struct AccessLogSpec {
    /// Kind of sink: "stdout" or "file". Kept for later use.
    pub type_: String,
    pub path: String,
}

/// The mathematical value of [`AccessLogSpec`].
pub struct AccessLogView {
    pub type_: Seq<char>,
    pub path: Seq<char>,
}

impl View for AccessLogSpec {
    type V = AccessLogView;

    open spec fn view(&self) -> AccessLogView {
        AccessLogView {
            type_: self.type_@,
            path: self.path@,
        }
    }
}

/// The kind of log sink of a fragment that gives none.
pub fn default_log_type() -> (r: String)
    ensures
        r@ == "stdout"@,
{
    "stdout".to_string()
}

/// The log path of a fragment that gives none.
pub fn default_log_path() -> (r: String)
    ensures
        r@ == "/dev/stdout"@,
{
    "/dev/stdout".to_string()
}

/// How a run treats the generated document.
#[derive(Debug)]
pub struct RuntimeSpec {
    pub validate: ValidateSpec,
}

/// The mathematical value of [`RuntimeSpec`].
pub struct RuntimeView {
    pub validate: ValidateView,
}

impl View for RuntimeSpec {
    type V = RuntimeView;

    open spec fn view(&self) -> RuntimeView {
        RuntimeView {
            validate: self.validate@,
        }
    }
}

/// The internal listeners, in the order in which they are declared.
#[derive(Debug)]
pub struct ListenersSpec {
    pub internal_http_listeners: Vec<InternalHttpListenerSpec>,
}

/// The mathematical value of [`ListenersSpec`].
pub struct ListenersView {
    pub internal_http_listeners: Seq<InternalHttpListenerView>,
}

impl View for ListenersSpec {
    type V = ListenersView;

    open spec fn view(&self) -> ListenersView {
        ListenersView {
            internal_http_listeners: views(self.internal_http_listeners@),
        }
    }
}

impl Default for ListenersSpec {
    fn default() -> (r: ListenersSpec)
        ensures
            r.internal_http_listeners@.len() == 0,
    {
        ListenersSpec { internal_http_listeners: Vec::new() }
    }
}

/// A plain HTTP listener that serves some domains from one upstream.
#[derive(Debug)]
pub struct InternalHttpListenerSpec {
    pub name: String,
    pub address: String,
    pub port: u16,
    pub stat_prefix: String,
    pub domains: Vec<String>,
    pub to_upstream: String,
    pub timeout: Option<String>,
    pub request_headers_to_add: Vec<HeaderValueOption>,
}

/// The mathematical value of [`InternalHttpListenerSpec`].
pub struct InternalHttpListenerView {
    pub name: Seq<char>,
    pub address: Seq<char>,
    pub port: u16,
    pub stat_prefix: Seq<char>,
    pub domains: Seq<Seq<char>>,
    pub to_upstream: Seq<char>,
    pub timeout: Option<Seq<char>>,
    pub request_headers_to_add: Seq<HeaderValueOptionView>,
}

impl View for InternalHttpListenerSpec {
    type V = InternalHttpListenerView;

    open spec fn view(&self) -> InternalHttpListenerView {
        InternalHttpListenerView {
            name: self.name@,
            address: self.address@,
            port: self.port,
            stat_prefix: self.stat_prefix@,
            domains: views(self.domains@),
            to_upstream: self.to_upstream@,
            timeout: optional_view(self.timeout),
            request_headers_to_add: views(self.request_headers_to_add@),
        }
    }
}

/// A request header to inject, and how it meets a header that is there.
#[derive(Debug)]
pub struct HeaderValueOption {
    pub header: HeaderValue,
    pub append_action: Option<String>,
}

/// The mathematical value of [`HeaderValueOption`].
pub struct HeaderValueOptionView {
    pub header: HeaderValueView,
    pub append_action: Option<Seq<char>>,
}

impl View for HeaderValueOption {
    type V = HeaderValueOptionView;

    open spec fn view(&self) -> HeaderValueOptionView {
        HeaderValueOptionView {
            header: self.header@,
            append_action: optional_view(self.append_action),
        }
    }
}

/// A header: its key and its value.
#[derive(Debug)]
pub struct HeaderValue {
    pub key: String,
    pub value: String,
}

/// The mathematical value of [`HeaderValue`].
pub struct HeaderValueView {
    pub key: Seq<char>,
    pub value: Seq<char>,
}

impl View for HeaderValue {
    type V = HeaderValueView;

    open spec fn view(&self) -> HeaderValueView {
        HeaderValueView {
            key: self.key@,
            value: self.value@,
        }
    }
}

/// How the generated document is checked by a real proxy binary. The
/// generator carries this value and never reads it.
#[derive(Debug)]
pub enum ValidateSpec {
    /// Run the check inside a running container.
    DockerExec {
        /// Name of the running container.
        container: String,
        /// Path of the document inside the container.
        config_path: String,
    },
    /// Run the check as a local process.
    Native {
        /// User to run the binary as.
        user: String,
        /// Path of the binary.
        bin: String,
        /// Path of the document.
        config_path: String,
    },
    /// Run the check in a fresh container of the given image.
    DockerImage { image: String },
}

/// The mathematical value of [`ValidateSpec`].
pub enum ValidateView {
    DockerExec { container: Seq<char>, config_path: Seq<char> },
    Native { user: Seq<char>, bin: Seq<char>, config_path: Seq<char> },
    DockerImage { image: Seq<char> },
}

impl View for ValidateSpec {
    type V = ValidateView;

    open spec fn view(&self) -> ValidateView {
        match self {
            ValidateSpec::DockerExec { container, config_path } => ValidateView::DockerExec {
                container: container@,
                config_path: config_path@,
            },
            ValidateSpec::Native { user, bin, config_path } => ValidateView::Native {
                user: user@,
                bin: bin@,
                config_path: config_path@,
            },
            ValidateSpec::DockerImage { image } => ValidateView::DockerImage { image: image@ },
        }
    }
}

/// The path of the document inside a container, if a fragment gives none.
pub fn default_container_config_path() -> (r: String)
    ensures
        r@ == "/etc/envoy/envoy.yaml"@,
{
    "/etc/envoy/envoy.yaml".to_string()
}

/// The user that runs the proxy binary, if a fragment names none.
pub fn default_envoy_user() -> (r: String)
    ensures
        r@ == "envoy"@,
{
    "envoy".to_string()
}

/// The proxy binary, if a fragment names none.
pub fn default_envoy_bin() -> (r: String)
    ensures
        r@ == "envoy"@,
{
    "envoy".to_string()
}

/// The path of the document for a local check, if a fragment gives none.
pub fn default_native_config_path() -> (r: String)
    ensures
        r@ == "/etc/envoy/envoy.yaml"@,
{
    "/etc/envoy/envoy.yaml".to_string()
}

/// An upstream cluster.
#[derive(Debug)]
pub struct UpstreamSpec {
    pub name: String,
    pub connect_timeout: String,
    /// Discovery type of the cluster.
    pub type_: String,
    pub lb_policy: String,
    pub endpoints: Vec<Endpoint>,
    /// Whether the cluster speaks HTTP/2 to its endpoints.
    pub http2: bool,
}

/// The mathematical value of [`UpstreamSpec`].
pub struct UpstreamView {
    pub name: Seq<char>,
    pub connect_timeout: Seq<char>,
    pub type_: Seq<char>,
    pub lb_policy: Seq<char>,
    pub endpoints: Seq<EndpointView>,
    pub http2: bool,
}

impl View for UpstreamSpec {
    type V = UpstreamView;

    open spec fn view(&self) -> UpstreamView {
        UpstreamView {
            name: self.name@,
            connect_timeout: self.connect_timeout@,
            type_: self.type_@,
            lb_policy: self.lb_policy@,
            endpoints: views(self.endpoints@),
            http2: self.http2,
        }
    }
}

/// The connect timeout of an upstream that gives none.
pub fn default_connect_timeout() -> (r: String)
    ensures
        r@ == "5s"@,
{
    "5s".to_string()
}

/// The discovery type of an upstream that gives none.
pub fn default_cluster_type() -> (r: String)
    ensures
        r@ == "STRICT_DNS"@,
{
    "STRICT_DNS".to_string()
}

/// The load-balancing policy of an upstream that gives none.
pub fn default_lb_policy() -> (r: String)
    ensures
        r@ == "ROUND_ROBIN"@,
{
    "ROUND_ROBIN".to_string()
}

/// One endpoint of an upstream: address and port.
#[derive(Debug)]
pub struct Endpoint {
    pub address: String,
    pub port: u16,
}

/// The mathematical value of [`Endpoint`].
pub struct EndpointView {
    pub address: Seq<char>,
    pub port: u16,
}

impl View for Endpoint {
    type V = EndpointView;

    open spec fn view(&self) -> EndpointView {
        EndpointView {
            address: self.address@,
            port: self.port,
        }
    }
}

/// One domain: how its TLS is handled and where its requests go.
#[derive(Debug)]
pub struct DomainSpec {
    pub domain: String,
    /// "terminate_https_443" or "passthrough_https_443".
    pub mode: String,
    pub tls: Option<TlsSpec>,
    pub routes: Vec<RouteSpec>,
    pub http_connection_manager: Option<HttpConnectionManagerSpec>,
    /// Explicit `normalize_path` for this domain.
    pub normalize_path: Option<bool>,
    /// Explicit `merge_slashes` for this domain.
    pub merge_slashes: Option<bool>,
    /// Signing of the requests that go upstream.
    pub aws_signing: Option<AwsSigningSpec>,
}

/// The mathematical value of [`DomainSpec`].
pub struct DomainView {
    pub domain: Seq<char>,
    pub mode: Seq<char>,
    pub tls: Option<TlsView>,
    pub routes: Seq<RouteView>,
    pub http_connection_manager: Option<HttpConnectionManagerView>,
    pub normalize_path: Option<bool>,
    pub merge_slashes: Option<bool>,
    pub aws_signing: Option<AwsSigningView>,
}

impl View for DomainSpec {
    type V = DomainView;

    open spec fn view(&self) -> DomainView {
        DomainView {
            domain: self.domain@,
            mode: self.mode@,
            tls: optional_view(self.tls),
            routes: views(self.routes@),
            http_connection_manager: optional_view(self.http_connection_manager),
            normalize_path: self.normalize_path,
            merge_slashes: self.merge_slashes,
            aws_signing: optional_view(self.aws_signing),
        }
    }
}

impl Default for DomainSpec {
    fn default() -> (r: DomainSpec)
        ensures
            r.domain@.len() == 0,
            r.mode@.len() == 0,
            r.tls is None,
            r.routes@.len() == 0,
            r.http_connection_manager is None,
            r.normalize_path is None,
            r.merge_slashes is None,
            r.aws_signing is None,
    {
        DomainSpec {
            domain: String::new(),
            mode: String::new(),
            tls: None,
            routes: Vec::new(),
            http_connection_manager: None,
            normalize_path: None,
            merge_slashes: None,
            aws_signing: None,
        }
    }
}

/// The mode of a domain that gives none.
pub fn default_mode() -> (r: String)
    ensures
        r@ == "terminate_https_443"@,
{
    "terminate_https_443".to_string()
}

/// Paths of the certificate chain and of the private key.
#[derive(Debug)]
pub struct TlsSpec {
    pub cert_chain: String,
    pub private_key: String,
}

/// The mathematical value of [`TlsSpec`].
pub struct TlsView {
    pub cert_chain: Seq<char>,
    pub private_key: Seq<char>,
}

impl View for TlsSpec {
    type V = TlsView;

    open spec fn view(&self) -> TlsView {
        TlsView {
            cert_chain: self.cert_chain@,
            private_key: self.private_key@,
        }
    }
}

/// Signing of upstream requests.
#[derive(Debug)]
pub struct AwsSigningSpec {
    pub enabled: bool,
    pub service_name: String,
    pub region: String,
    pub use_unsigned_payload: bool,
    /// Take credentials from the environment only.
    pub use_env_credentials: bool,
}

/// The mathematical value of [`AwsSigningSpec`].
pub struct AwsSigningView {
    pub enabled: bool,
    pub service_name: Seq<char>,
    pub region: Seq<char>,
    pub use_unsigned_payload: bool,
    pub use_env_credentials: bool,
}

impl View for AwsSigningSpec {
    type V = AwsSigningView;

    open spec fn view(&self) -> AwsSigningView {
        AwsSigningView {
            enabled: self.enabled,
            service_name: self.service_name@,
            region: self.region@,
            use_unsigned_payload: self.use_unsigned_payload,
            use_env_credentials: self.use_env_credentials,
        }
    }
}

/// The service name that requests are signed for, if a fragment gives none.
pub fn default_s3_service() -> (r: String)
    ensures
        r@ == "s3"@,
{
    "s3".to_string()
}

/// The region that requests are signed for, if a fragment gives none.
pub fn default_garage_region() -> (r: String)
    ensures
        r@ == "garage"@,
{
    "garage".to_string()
}

/// Whether payloads stay unsigned, if a fragment does not say.
pub fn default_unsigned_payload() -> (r: bool)
    ensures
        r,
{
    true
}

/// Whether credentials come from the environment only, if a fragment does
/// not say.
pub fn default_use_env_credentials() -> (r: bool)
    ensures
        r,
{
    true
}

/// One route of a domain.
#[derive(Debug)]
pub struct RouteSpec {
    pub m: MatchSpec,
    /// Upstream cluster that the route goes to.
    pub to_upstream: Option<String>,
    pub timeout: Option<String>,
    pub per_filter_config: Option<PerFilterConfigRef>,
    /// Replacement for the matched path prefix.
    pub prefix_rewrite: Option<String>,
    /// Answer directly instead of routing.
    pub direct_response: Option<DirectResponseSpec>,
}

/// The mathematical value of [`RouteSpec`].
pub struct RouteView {
    pub m: MatchView,
    pub to_upstream: Option<Seq<char>>,
    pub timeout: Option<Seq<char>>,
    pub per_filter_config: Option<PerFilterConfigRefView>,
    pub prefix_rewrite: Option<Seq<char>>,
    pub direct_response: Option<DirectResponseView>,
}

impl View for RouteSpec {
    type V = RouteView;

    open spec fn view(&self) -> RouteView {
        RouteView {
            m: self.m@,
            to_upstream: optional_view(self.to_upstream),
            timeout: optional_view(self.timeout),
            per_filter_config: optional_view(self.per_filter_config),
            prefix_rewrite: optional_view(self.prefix_rewrite),
            direct_response: optional_view(self.direct_response),
        }
    }
}

impl Default for RouteSpec {
    fn default() -> (r: RouteSpec)
        ensures
            r.m.prefix is None,
            r.m.path is None,
            r.m.headers@.len() == 0,
            r.to_upstream is None,
            r.timeout is None,
            r.per_filter_config is None,
            r.prefix_rewrite is None,
            r.direct_response is None,
    {
        RouteSpec {
            m: MatchSpec::default(),
            to_upstream: None,
            timeout: None,
            per_filter_config: None,
            prefix_rewrite: None,
            direct_response: None,
        }
    }
}

/// An answer that a route gives by itself: a status code and, if wanted, a
/// body.
#[derive(Debug)]
pub struct DirectResponseSpec {
    pub status: u16,
    pub body: Option<String>,
}

/// The mathematical value of [`DirectResponseSpec`].
pub struct DirectResponseView {
    pub status: u16,
    pub body: Option<Seq<char>>,
}

impl View for DirectResponseSpec {
    type V = DirectResponseView;

    open spec fn view(&self) -> DirectResponseView {
        DirectResponseView {
            status: self.status,
            body: optional_view(self.body),
        }
    }
}

/// Names the rate-limit policy that applies to a route.
#[derive(Debug)]
pub struct PerFilterConfigRef {
    pub local_ratelimit: Option<String>,
}

/// The mathematical value of [`PerFilterConfigRef`].
pub struct PerFilterConfigRefView {
    pub local_ratelimit: Option<Seq<char>>,
}

impl View for PerFilterConfigRef {
    type V = PerFilterConfigRefView;

    open spec fn view(&self) -> PerFilterConfigRefView {
        PerFilterConfigRefView {
            local_ratelimit: optional_view(self.local_ratelimit),
        }
    }
}

/// What a route matches: a path prefix or an exact path, and headers.
#[derive(Debug, Clone)]
pub struct MatchSpec {
    pub prefix: Option<String>,
    pub path: Option<String>,
    pub headers: Vec<HeaderMatcher>,
}

/// The mathematical value of [`MatchSpec`].
pub struct MatchView {
    pub prefix: Option<Seq<char>>,
    pub path: Option<Seq<char>>,
    pub headers: Seq<HeaderMatcherView>,
}

impl View for MatchSpec {
    type V = MatchView;

    open spec fn view(&self) -> MatchView {
        MatchView {
            prefix: optional_view(self.prefix),
            path: optional_view(self.path),
            headers: views(self.headers@),
        }
    }
}

impl Default for MatchSpec {
    fn default() -> (r: MatchSpec)
        ensures
            r.prefix is None,
            r.path is None,
            r.headers@.len() == 0,
    {
        MatchSpec { prefix: None, path: None, headers: Vec::new() }
    }
}

/// A header that a request must carry to match, with an exact value if one
/// is asked for.
#[derive(Debug, Clone)]
pub struct HeaderMatcher {
    pub name: String,
    pub exact_match: Option<String>,
}

/// The mathematical value of [`HeaderMatcher`].
pub struct HeaderMatcherView {
    pub name: Seq<char>,
    pub exact_match: Option<Seq<char>>,
}

impl View for HeaderMatcher {
    type V = HeaderMatcherView;

    open spec fn view(&self) -> HeaderMatcherView {
        HeaderMatcherView {
            name: self.name@,
            exact_match: optional_view(self.exact_match),
        }
    }
}

/// `indexmap::IndexMap`, a hash map that keeps insertion order.
#[verifier::external_type_specification]
#[verifier::external_body]
#[verifier::reject_recursive_types(K)]
#[verifier::reject_recursive_types(V)]
#[verifier::reject_recursive_types(S)]
pub struct ExIndexMap<K, V, S>(IndexMap<K, V, S>);

/// The named rate-limit policies.
#[derive(Debug)]
pub struct PoliciesSpec {
    pub local_ratelimits: IndexMap<String, TokenBucket>,
}

/// The policies that a map of rate limits holds, by name.
pub uninterp spec fn policy_map(m: IndexMap<String, TokenBucket>) -> Map<Seq<char>, TokenBucketView>;

/// `IndexMap::get` with a string key: the policy stored under the name, if
/// there is one.
#[verifier::external_body]
pub(crate) fn policy_get<'a>(m: &'a IndexMap<String, TokenBucket>, name: &str) -> (r: Option<
    &'a TokenBucket,
>)
    ensures
        match r {
            Some(bucket) => policy_map(*m).contains_key(name@) && bucket@ == policy_map(*m)[name@],
            None => !policy_map(*m).contains_key(name@),
        },
{
    m.get(name)
}

impl PoliciesSpec {
    /// The policies by name.
    pub open spec fn view(&self) -> Map<Seq<char>, TokenBucketView> {
        policy_map(self.local_ratelimits)
    }

    /// The policy with the given name, if there is one.
    pub fn get(&self, name: &str) -> (r: Option<&TokenBucket>)
        ensures
            match r {
                Some(bucket) => self@.contains_key(name@) && bucket@ == self@[name@],
                None => !self@.contains_key(name@),
            },
    {
        policy_get(&self.local_ratelimits, name)
    }
}

/// The parameters of a token bucket: its size, the tokens per refill and
/// the refill interval.
#[derive(Debug)]
pub struct TokenBucket {
    pub max_tokens: u32,
    pub tokens_per_fill: u32,
    pub fill_interval: String,
    pub stat_prefix: Option<String>,
}

/// The mathematical value of [`TokenBucket`].
pub struct TokenBucketView {
    pub max_tokens: u32,
    pub tokens_per_fill: u32,
    pub fill_interval: Seq<char>,
    pub stat_prefix: Option<Seq<char>>,
}

impl View for TokenBucket {
    type V = TokenBucketView;

    open spec fn view(&self) -> TokenBucketView {
        TokenBucketView {
            max_tokens: self.max_tokens,
            tokens_per_fill: self.tokens_per_fill,
            fill_interval: self.fill_interval@,
            stat_prefix: optional_view(self.stat_prefix),
        }
    }
}

/// Per-domain settings of the HTTP connection manager.
#[derive(Debug)]
pub struct HttpConnectionManagerSpec {
    pub stat_prefix: Option<String>,
    pub normalize_path: Option<bool>,
    pub merge_slashes: Option<bool>,
    pub use_remote_address: Option<bool>,
    pub xff_num_trusted_hops: Option<u32>,
    pub stream_idle_timeout: Option<String>,
    pub local_ratelimit_stat_prefix: Option<String>,
    pub extra_http_filters: Vec<HttpFilterSpec>,
}

/// The mathematical value of [`HttpConnectionManagerSpec`].
pub struct HttpConnectionManagerView {
    pub stat_prefix: Option<Seq<char>>,
    pub normalize_path: Option<bool>,
    pub merge_slashes: Option<bool>,
    pub use_remote_address: Option<bool>,
    pub xff_num_trusted_hops: Option<u32>,
    pub stream_idle_timeout: Option<Seq<char>>,
    pub local_ratelimit_stat_prefix: Option<Seq<char>>,
    pub extra_http_filters: Seq<HttpFilterSpec>,
}

impl View for HttpConnectionManagerSpec {
    type V = HttpConnectionManagerView;

    open spec fn view(&self) -> HttpConnectionManagerView {
        HttpConnectionManagerView {
            stat_prefix: optional_view(self.stat_prefix),
            normalize_path: self.normalize_path,
            merge_slashes: self.merge_slashes,
            use_remote_address: self.use_remote_address,
            xff_num_trusted_hops: self.xff_num_trusted_hops,
            stream_idle_timeout: optional_view(self.stream_idle_timeout),
            local_ratelimit_stat_prefix: optional_view(self.local_ratelimit_stat_prefix),
            extra_http_filters: views(self.extra_http_filters@),
        }
    }
}

/// An HTTP filter that a domain can add in front of the router.
#[derive(Debug)]
pub enum HttpFilterSpec {
    GrpcWeb,
}

impl View for HttpFilterSpec {
    type V = HttpFilterSpec;

    open spec fn view(&self) -> HttpFilterSpec {
        *self
    }
}

} // verus!
