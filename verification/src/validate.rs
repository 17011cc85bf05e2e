//! The validator: referential integrity and structural invariants of the
//! whole model, checked in a fixed order. The first violated invariant is
//! the result; nothing is repaired.

use crate::document::{domain_ready, domains_ready, is_terminate, rate_limit_ref, route_ready};
use crate::first::{first_at, lemma_first_at_none, lemma_first_at_some, lemma_first_at_stays};
use crate::model::{
    views, DefaultsSpec, DefaultsView, DomainSpec, DomainView, PoliciesSpec, RouteView,
    TokenBucketView, UpstreamSpec, UpstreamView,
};
use crate::text::str_eq;
use vstd::prelude::*;
use vstd::string::StringExecFns;

verus! {

/// A violated invariant, with the name of what violates it.
#[derive(Debug)]
pub enum ValidationError {
    /// A domain name that an earlier domain fragment has already.
    DuplicateDomain { domain: String },
    /// A terminate-mode domain without TLS material.
    TerminateWithoutTls { domain: String },
    /// A domain whose mode is neither of the two known ones.
    UnsupportedMode { domain: String, mode: String },
    /// The default HTTP upstream is not among the upstreams.
    MissingHttpDefaultUpstream { upstream: String },
    /// The TLS passthrough upstream is not among the upstreams.
    MissingTlsPassthroughUpstream { upstream: String },
    /// An upstream without endpoints.
    NoEndpoints { upstream: String },
    /// A route to an upstream that is not among the upstreams.
    UnknownUpstream { domain: String, upstream: String },
    /// A route that names a rate-limit policy which does not exist.
    UnknownRateLimitPolicy { domain: String, policy: String },
}

/// A violated invariant as a mathematical value.
pub enum Violation {
    DuplicateDomain { domain: Seq<char> },
    TerminateWithoutTls { domain: Seq<char> },
    UnsupportedMode { domain: Seq<char>, mode: Seq<char> },
    MissingHttpDefaultUpstream { upstream: Seq<char> },
    MissingTlsPassthroughUpstream { upstream: Seq<char> },
    NoEndpoints { upstream: Seq<char> },
    UnknownUpstream { domain: Seq<char>, upstream: Seq<char> },
    UnknownRateLimitPolicy { domain: Seq<char>, policy: Seq<char> },
}

impl View for ValidationError {
    type V = Violation;

    open spec fn view(&self) -> Violation {
        match self {
            ValidationError::DuplicateDomain { domain } => Violation::DuplicateDomain {
                domain: domain@,
            },
            ValidationError::TerminateWithoutTls { domain } => Violation::TerminateWithoutTls {
                domain: domain@,
            },
            ValidationError::UnsupportedMode { domain, mode } => Violation::UnsupportedMode {
                domain: domain@,
                mode: mode@,
            },
            ValidationError::MissingHttpDefaultUpstream {
                upstream,
            } => Violation::MissingHttpDefaultUpstream { upstream: upstream@ },
            ValidationError::MissingTlsPassthroughUpstream {
                upstream,
            } => Violation::MissingTlsPassthroughUpstream { upstream: upstream@ },
            ValidationError::NoEndpoints { upstream } => Violation::NoEndpoints {
                upstream: upstream@,
            },
            ValidationError::UnknownUpstream { domain, upstream } => Violation::UnknownUpstream {
                domain: domain@,
                upstream: upstream@,
            },
            ValidationError::UnknownRateLimitPolicy {
                domain,
                policy,
            } => Violation::UnknownRateLimitPolicy { domain: domain@, policy: policy@ },
        }
    }
}

/// The message of a violation. It names the offending domain, upstream or
/// policy.
pub open spec fn violation_message(v: Violation) -> Seq<char> {
    match v {
        Violation::DuplicateDomain { domain } => "duplicate domain: "@ + domain,
        Violation::TerminateWithoutTls { domain } => "domain "@ + domain
            + " mode terminate_https_443 requires tls block"@,
        Violation::UnsupportedMode { domain, mode } => "domain "@ + domain
            + " has unsupported mode: "@ + mode,
        Violation::MissingHttpDefaultUpstream { upstream } => "defaults.http_default_upstream '"@
            + upstream + "' does not exist in upstreams/"@,
        Violation::MissingTlsPassthroughUpstream {
            upstream,
        } => "defaults.tls_passthrough_upstream '"@ + upstream + "' does not exist in upstreams/"@,
        Violation::NoEndpoints { upstream } => "upstream "@ + upstream + " has no endpoints"@,
        Violation::UnknownUpstream { domain, upstream } => "domain "@ + domain
            + " route references unknown upstream "@ + upstream,
        Violation::UnknownRateLimitPolicy { domain, policy } => "domain "@ + domain
            + " route references unknown local_ratelimit policy "@ + policy,
    }
}

/// Whether a text occurs in a message.
pub open spec fn occurs_in(name: Seq<char>, message: Seq<char>) -> bool {
    exists|at: int|
        0 <= at && at + name.len() <= message.len() && #[trigger] message.subrange(
            at,
            at + name.len(),
        ) == name
}

/// The message of a violation names each domain, upstream and policy that
/// the violation is about.
pub proof fn lemma_message_names_the_offender(v: Violation)
    ensures
        match v {
            Violation::DuplicateDomain { domain } => occurs_in(domain, violation_message(v)),
            Violation::TerminateWithoutTls { domain } => occurs_in(domain, violation_message(v)),
            Violation::UnsupportedMode { domain, mode } => occurs_in(domain, violation_message(v))
                && occurs_in(mode, violation_message(v)),
            Violation::MissingHttpDefaultUpstream { upstream } => occurs_in(
                upstream,
                violation_message(v),
            ),
            Violation::MissingTlsPassthroughUpstream { upstream } => occurs_in(
                upstream,
                violation_message(v),
            ),
            Violation::NoEndpoints { upstream } => occurs_in(upstream, violation_message(v)),
            Violation::UnknownUpstream { domain, upstream } => occurs_in(
                domain,
                violation_message(v),
            ) && occurs_in(upstream, violation_message(v)),
            Violation::UnknownRateLimitPolicy { domain, policy } => occurs_in(
                domain,
                violation_message(v),
            ) && occurs_in(policy, violation_message(v)),
        },
{
    let m = violation_message(v);
    match v {
        Violation::DuplicateDomain { domain } => {
            lemma_occurs(m, "duplicate domain: "@, domain, Seq::empty());
        },
        Violation::TerminateWithoutTls { domain } => {
            lemma_occurs(m, "domain "@, domain, " mode terminate_https_443 requires tls block"@);
        },
        Violation::UnsupportedMode { domain, mode } => {
            lemma_occurs(m, "domain "@, domain, " has unsupported mode: "@ + mode);
            lemma_occurs(m, "domain "@ + domain + " has unsupported mode: "@, mode, Seq::empty());
        },
        Violation::MissingHttpDefaultUpstream { upstream } => {
            lemma_occurs(
                m,
                "defaults.http_default_upstream '"@,
                upstream,
                "' does not exist in upstreams/"@,
            );
        },
        Violation::MissingTlsPassthroughUpstream { upstream } => {
            lemma_occurs(
                m,
                "defaults.tls_passthrough_upstream '"@,
                upstream,
                "' does not exist in upstreams/"@,
            );
        },
        Violation::NoEndpoints { upstream } => {
            lemma_occurs(m, "upstream "@, upstream, " has no endpoints"@);
        },
        Violation::UnknownUpstream { domain, upstream } => {
            lemma_occurs(m, "domain "@, domain, " route references unknown upstream "@ + upstream);
            lemma_occurs(
                m,
                "domain "@ + domain + " route references unknown upstream "@,
                upstream,
                Seq::empty(),
            );
        },
        Violation::UnknownRateLimitPolicy { domain, policy } => {
            lemma_occurs(
                m,
                "domain "@,
                domain,
                " route references unknown local_ratelimit policy "@ + policy,
            );
            lemma_occurs(
                m,
                "domain "@ + domain + " route references unknown local_ratelimit policy "@,
                policy,
                Seq::empty(),
            );
        },
    }
}

/// A text that stands between two others occurs in the whole.
proof fn lemma_occurs(message: Seq<char>, before: Seq<char>, name: Seq<char>, after: Seq<char>)
    requires
        message =~= before + name + after,
    ensures
        occurs_in(name, message),
{
    let at = before.len() as int;
    assert(message.subrange(at, at + name.len()) =~= name);
}

impl ValidationError {
    /// The message of the error.
    pub fn message(&self) -> (text: String)
        ensures
            text@ == violation_message(self@),
    {
        match self {
            ValidationError::DuplicateDomain { domain } => {
                String::from_str("duplicate domain: ").concat(domain.as_str())
            },
            ValidationError::TerminateWithoutTls { domain } => {
                String::from_str("domain ").concat(domain.as_str()).concat(
                    " mode terminate_https_443 requires tls block",
                )
            },
            ValidationError::UnsupportedMode { domain, mode } => {
                String::from_str("domain ").concat(domain.as_str()).concat(
                    " has unsupported mode: ",
                ).concat(mode.as_str())
            },
            ValidationError::MissingHttpDefaultUpstream { upstream } => {
                String::from_str("defaults.http_default_upstream '").concat(
                    upstream.as_str(),
                ).concat("' does not exist in upstreams/")
            },
            ValidationError::MissingTlsPassthroughUpstream { upstream } => {
                String::from_str("defaults.tls_passthrough_upstream '").concat(
                    upstream.as_str(),
                ).concat("' does not exist in upstreams/")
            },
            ValidationError::NoEndpoints { upstream } => {
                String::from_str("upstream ").concat(upstream.as_str()).concat(" has no endpoints")
            },
            ValidationError::UnknownUpstream { domain, upstream } => {
                String::from_str("domain ").concat(domain.as_str()).concat(
                    " route references unknown upstream ",
                ).concat(upstream.as_str())
            },
            ValidationError::UnknownRateLimitPolicy { domain, policy } => {
                String::from_str("domain ").concat(domain.as_str()).concat(
                    " route references unknown local_ratelimit policy ",
                ).concat(policy.as_str())
            },
        }
    }
}

/* ---------------- what a valid model is ---------------- */

/// Whether a domain forwards TLS undecrypted.
pub open spec fn is_passthrough(d: DomainView) -> bool {
    d.mode == "passthrough_https_443"@
}

/// Whether an upstream of the given name is loaded.
pub open spec fn has_upstream(upstreams: Seq<UpstreamView>, name: Seq<char>) -> bool {
    exists|k: int| 0 <= k < upstreams.len() && (#[trigger] upstreams[k]).name == name
}

/// Domain names are unique across the domain fragments.
pub open spec fn unique_domains(domains: Seq<DomainView>) -> bool {
    forall|i: int, j: int|
        0 <= j < i < domains.len() ==> (#[trigger] domains[j]).domain != (
        #[trigger] domains[i]).domain
}

/// Every mode is one of the two known ones.
pub open spec fn known_modes(domains: Seq<DomainView>) -> bool {
    forall|i: int|
        0 <= i < domains.len() ==> is_terminate(#[trigger] domains[i]) || is_passthrough(domains[i])
}

/// Every terminate-mode domain carries TLS material.
pub open spec fn tls_present(domains: Seq<DomainView>) -> bool {
    forall|i: int| 0 <= i < domains.len() ==> (is_terminate(#[trigger] domains[i]) ==> domains[i].tls is Some)
}

/// Both default upstreams are loaded.
pub open spec fn defaults_resolve(upstreams: Seq<UpstreamView>, defaults: DefaultsView) -> bool {
    &&& has_upstream(upstreams, defaults.http_default_upstream)
    &&& has_upstream(upstreams, defaults.tls_passthrough_upstream)
}

/// Every upstream has at least one endpoint.
pub open spec fn endpoints_present(upstreams: Seq<UpstreamView>) -> bool {
    forall|k: int| 0 <= k < upstreams.len() ==> (#[trigger] upstreams[k]).endpoints.len() > 0
}

/// The upstream that a route names, if it names one, is loaded.
pub open spec fn upstream_resolves(r: RouteView, upstreams: Seq<UpstreamView>) -> bool {
    r.to_upstream matches Some(name) ==> has_upstream(upstreams, name)
}

/// The rate-limit policy that a route names, if it names one, exists.
pub open spec fn policy_resolves(r: RouteView, policies: Map<Seq<char>, TokenBucketView>) -> bool {
    rate_limit_ref(r) matches Some(name) ==> policies.contains_key(name)
}

/// Every route's upstream resolves.
pub open spec fn upstreams_resolve(domains: Seq<DomainView>, upstreams: Seq<UpstreamView>) -> bool {
    forall|i: int, j: int|
        0 <= i < domains.len() && 0 <= j < domains[i].routes.len() ==> upstream_resolves(
            #[trigger] domains[i].routes[j],
            upstreams,
        )
}

/// Every route's rate-limit policy resolves.
pub open spec fn policies_resolve(
    domains: Seq<DomainView>,
    policies: Map<Seq<char>, TokenBucketView>,
) -> bool {
    forall|i: int, j: int|
        0 <= i < domains.len() && 0 <= j < domains[i].routes.len() ==> policy_resolves(
            #[trigger] domains[i].routes[j],
            policies,
        )
}

/// The invariants of a valid model, all seven of them.
pub open spec fn model_valid(
    domains: Seq<DomainView>,
    upstreams: Seq<UpstreamView>,
    policies: Map<Seq<char>, TokenBucketView>,
    defaults: DefaultsView,
) -> bool {
    &&& unique_domains(domains)
    &&& known_modes(domains)
    &&& tls_present(domains)
    &&& defaults_resolve(upstreams, defaults)
    &&& endpoints_present(upstreams)
    &&& upstreams_resolve(domains, upstreams)
    &&& policies_resolve(domains, policies)
}

/* ---------------- the first violation ---------------- */

/// Whether an earlier domain fragment has the name of domain `i`.
pub open spec fn seen_before(domains: Seq<DomainView>, i: int) -> bool {
    exists|j: int| 0 <= j < i && (#[trigger] domains[j]).domain == domains[i].domain
}

/// What is wrong with domain `i` by itself: a name seen before, else
/// missing TLS material, else an unknown mode.
pub open spec fn domain_violation(domains: Seq<DomainView>, i: int) -> Option<Violation> {
    let d = domains[i];
    if seen_before(domains, i) {
        Some(Violation::DuplicateDomain { domain: d.domain })
    } else if is_terminate(d) && d.tls is None {
        Some(Violation::TerminateWithoutTls { domain: d.domain })
    } else if !is_terminate(d) && !is_passthrough(d) {
        Some(Violation::UnsupportedMode { domain: d.domain, mode: d.mode })
    } else {
        None
    }
}

/// The check of each domain by itself, by position.
pub open spec fn domain_checks(domains: Seq<DomainView>) -> spec_fn(int) -> Option<Violation> {
    |i: int| domain_violation(domains, i)
}

/// Which default upstream is missing: the HTTP one first.
pub open spec fn defaults_violation(upstreams: Seq<UpstreamView>, defaults: DefaultsView) -> Option<
    Violation,
> {
    if !has_upstream(upstreams, defaults.http_default_upstream) {
        Some(Violation::MissingHttpDefaultUpstream { upstream: defaults.http_default_upstream })
    } else if !has_upstream(upstreams, defaults.tls_passthrough_upstream) {
        Some(
            Violation::MissingTlsPassthroughUpstream {
                upstream: defaults.tls_passthrough_upstream,
            },
        )
    } else {
        None
    }
}

/// What is wrong with an upstream by itself: it has no endpoints.
pub open spec fn endpoint_violation(u: UpstreamView) -> Option<Violation> {
    if u.endpoints.len() == 0 {
        Some(Violation::NoEndpoints { upstream: u.name })
    } else {
        None
    }
}

/// The check of each upstream by itself, by position.
pub open spec fn endpoint_checks(upstreams: Seq<UpstreamView>) -> spec_fn(int) -> Option<
    Violation,
> {
    |k: int| endpoint_violation(upstreams[k])
}

/// What a route refers to and does not find: its upstream first, then its
/// rate-limit policy.
pub open spec fn route_violation(
    domain: Seq<char>,
    r: RouteView,
    upstreams: Seq<UpstreamView>,
    policies: Map<Seq<char>, TokenBucketView>,
) -> Option<Violation> {
    if !upstream_resolves(r, upstreams) {
        Some(Violation::UnknownUpstream { domain, upstream: r.to_upstream->0 })
    } else if !policy_resolves(r, policies) {
        Some(Violation::UnknownRateLimitPolicy { domain, policy: rate_limit_ref(r)->0 })
    } else {
        None
    }
}

/// The check of each route of a domain, by position.
pub open spec fn route_checks(
    d: DomainView,
    upstreams: Seq<UpstreamView>,
    policies: Map<Seq<char>, TokenBucketView>,
) -> spec_fn(int) -> Option<Violation> {
    |j: int| route_violation(d.domain, d.routes[j], upstreams, policies)
}

/// The first reference of a domain's routes that does not resolve.
pub open spec fn references_violation(
    d: DomainView,
    upstreams: Seq<UpstreamView>,
    policies: Map<Seq<char>, TokenBucketView>,
) -> Option<Violation> {
    first_at(d.routes.len() as int, route_checks(d, upstreams, policies))
}

/// The check of the references of each domain, by position.
pub open spec fn reference_checks(
    domains: Seq<DomainView>,
    upstreams: Seq<UpstreamView>,
    policies: Map<Seq<char>, TokenBucketView>,
) -> spec_fn(int) -> Option<Violation> {
    |i: int| references_violation(domains[i], upstreams, policies)
}

/// The first of two results that is a violation.
pub open spec fn or_else(a: Option<Violation>, b: Option<Violation>) -> Option<Violation> {
    match a {
        Some(v) => Some(v),
        None => b,
    }
}

/// The first violated invariant, in the order of the checks: each domain by
/// itself, the two default upstreams, the endpoints of each upstream, and
/// then the references of each route of each domain.
pub open spec fn first_violation(
    domains: Seq<DomainView>,
    upstreams: Seq<UpstreamView>,
    policies: Map<Seq<char>, TokenBucketView>,
    defaults: DefaultsView,
) -> Option<Violation> {
    or_else(
        first_at(domains.len() as int, domain_checks(domains)),
        or_else(
            defaults_violation(upstreams, defaults),
            or_else(
                first_at(upstreams.len() as int, endpoint_checks(upstreams)),
                first_at(domains.len() as int, reference_checks(domains, upstreams, policies)),
            ),
        ),
    )
}

/* ---------------- validity and violations ---------------- */

proof fn lemma_domain_phase(domains: Seq<DomainView>)
    ensures
        first_at(domains.len() as int, domain_checks(domains)) is None <==> unique_domains(domains)
            && known_modes(domains) && tls_present(domains),
{
    let checks = domain_checks(domains);
    lemma_first_at_none(domains.len() as int, checks);
    if first_at(domains.len() as int, checks) is None {
        assert forall|i: int, j: int| 0 <= j < i < domains.len() implies (#[trigger] domains[j]).domain
            != (#[trigger] domains[i]).domain by {
            assert(checks(i) is None);
            assert(!seen_before(domains, i));
        }
        assert forall|i: int| 0 <= i < domains.len() implies is_terminate(#[trigger] domains[i])
            || is_passthrough(domains[i]) by {
            assert(checks(i) is None);
        }
        assert forall|i: int| 0 <= i < domains.len() implies (is_terminate(#[trigger] domains[i])
            ==> domains[i].tls is Some) by {
            assert(checks(i) is None);
        }
    }
    if unique_domains(domains) && known_modes(domains) && tls_present(domains) {
        assert forall|i: int| 0 <= i < domains.len() implies (#[trigger] checks(i)) is None by {
            if seen_before(domains, i) {
                let j = choose|j: int|
                    0 <= j < i && (#[trigger] domains[j]).domain == domains[i].domain;
                assert(domains[j].domain != domains[i].domain);
            }
            assert(is_terminate(domains[i]) || is_passthrough(domains[i]));
            assert(is_terminate(domains[i]) ==> domains[i].tls is Some);
        }
    }
}

proof fn lemma_endpoint_phase(upstreams: Seq<UpstreamView>)
    ensures
        first_at(upstreams.len() as int, endpoint_checks(upstreams)) is None <==> endpoints_present(
            upstreams,
        ),
{
    let checks = endpoint_checks(upstreams);
    lemma_first_at_none(upstreams.len() as int, checks);
    if first_at(upstreams.len() as int, checks) is None {
        assert forall|k: int| 0 <= k < upstreams.len() implies (#[trigger] upstreams[k]).endpoints.len()
            > 0 by {
            assert(checks(k) is None);
        }
    }
    if endpoints_present(upstreams) {
        assert forall|k: int| 0 <= k < upstreams.len() implies (#[trigger] checks(k)) is None by {
            assert(upstreams[k].endpoints.len() > 0);
        }
    }
}

proof fn lemma_references_of_domain(
    d: DomainView,
    upstreams: Seq<UpstreamView>,
    policies: Map<Seq<char>, TokenBucketView>,
)
    ensures
        references_violation(d, upstreams, policies) is None <==> forall|j: int|
            0 <= j < d.routes.len() ==> upstream_resolves(#[trigger] d.routes[j], upstreams)
                && policy_resolves(d.routes[j], policies),
{
    let checks = route_checks(d, upstreams, policies);
    lemma_first_at_none(d.routes.len() as int, checks);
    if references_violation(d, upstreams, policies) is None {
        assert forall|j: int| 0 <= j < d.routes.len() implies upstream_resolves(
            #[trigger] d.routes[j],
            upstreams,
        ) && policy_resolves(d.routes[j], policies) by {
            assert(checks(j) is None);
        }
    }
    if forall|j: int|
        0 <= j < d.routes.len() ==> upstream_resolves(#[trigger] d.routes[j], upstreams)
            && policy_resolves(d.routes[j], policies) {
        assert forall|j: int| 0 <= j < d.routes.len() implies (#[trigger] checks(j)) is None by {
            assert(upstream_resolves(d.routes[j], upstreams));
        }
    }
}

proof fn lemma_reference_phase(
    domains: Seq<DomainView>,
    upstreams: Seq<UpstreamView>,
    policies: Map<Seq<char>, TokenBucketView>,
)
    ensures
        first_at(domains.len() as int, reference_checks(domains, upstreams, policies)) is None
            <==> upstreams_resolve(domains, upstreams) && policies_resolve(domains, policies),
{
    let checks = reference_checks(domains, upstreams, policies);
    lemma_first_at_none(domains.len() as int, checks);
    if first_at(domains.len() as int, checks) is None {
        assert forall|i: int, j: int|
            0 <= i < domains.len() && 0 <= j < domains[i].routes.len() implies upstream_resolves(
            #[trigger] domains[i].routes[j],
            upstreams,
        ) && policy_resolves(domains[i].routes[j], policies) by {
            assert(checks(i) is None);
            lemma_references_of_domain(domains[i], upstreams, policies);
        }
    }
    if upstreams_resolve(domains, upstreams) && policies_resolve(domains, policies) {
        assert forall|i: int| 0 <= i < domains.len() implies (#[trigger] checks(i)) is None by {
            lemma_references_of_domain(domains[i], upstreams, policies);
            assert forall|j: int| 0 <= j < domains[i].routes.len() implies upstream_resolves(
                #[trigger] domains[i].routes[j],
                upstreams,
            ) && policy_resolves(domains[i].routes[j], policies) by {}
        }
    }
}

/// A model is valid exactly when no invariant is violated.
pub proof fn lemma_valid_iff_no_violation(
    domains: Seq<DomainView>,
    upstreams: Seq<UpstreamView>,
    policies: Map<Seq<char>, TokenBucketView>,
    defaults: DefaultsView,
)
    ensures
        model_valid(domains, upstreams, policies, defaults) <==> first_violation(
            domains,
            upstreams,
            policies,
            defaults,
        ) is None,
{
    lemma_domain_phase(domains);
    lemma_endpoint_phase(upstreams);
    lemma_reference_phase(domains, upstreams, policies);
}

/// Whether a violation is true of the model: what it names is there and
/// violates the invariant that the violation stands for.
pub open spec fn violates(
    v: Violation,
    domains: Seq<DomainView>,
    upstreams: Seq<UpstreamView>,
    policies: Map<Seq<char>, TokenBucketView>,
    defaults: DefaultsView,
) -> bool {
    match v {
        Violation::DuplicateDomain { domain } => exists|i: int, j: int|
            0 <= j < i < domains.len() && (#[trigger] domains[j]).domain == domain && (
            #[trigger] domains[i]).domain == domain,
        Violation::TerminateWithoutTls { domain } => exists|i: int|
            0 <= i < domains.len() && (#[trigger] domains[i]).domain == domain && is_terminate(
                domains[i],
            ) && domains[i].tls is None,
        Violation::UnsupportedMode { domain, mode } => exists|i: int|
            0 <= i < domains.len() && (#[trigger] domains[i]).domain == domain && domains[i].mode
                == mode && !is_terminate(domains[i]) && !is_passthrough(domains[i]),
        Violation::MissingHttpDefaultUpstream { upstream } => upstream
            == defaults.http_default_upstream && !has_upstream(upstreams, upstream),
        Violation::MissingTlsPassthroughUpstream { upstream } => upstream
            == defaults.tls_passthrough_upstream && !has_upstream(upstreams, upstream),
        Violation::NoEndpoints { upstream } => exists|k: int|
            0 <= k < upstreams.len() && (#[trigger] upstreams[k]).name == upstream
                && upstreams[k].endpoints.len() == 0,
        Violation::UnknownUpstream { domain, upstream } => exists|i: int, j: int|
            0 <= i < domains.len() && 0 <= j < domains[i].routes.len() && domains[i].domain
                == domain && (#[trigger] domains[i].routes[j]).to_upstream == Some(
                upstream,
            ) && !has_upstream(upstreams, upstream),
        Violation::UnknownRateLimitPolicy { domain, policy } => exists|i: int, j: int|
            0 <= i < domains.len() && 0 <= j < domains[i].routes.len() && domains[i].domain
                == domain && rate_limit_ref(#[trigger] domains[i].routes[j]) == Some(policy)
                && !policies.contains_key(policy),
    }
}

/// The violation that validation reports is true of the model: it names a
/// domain, an upstream or a policy that violates the invariant.
pub proof fn lemma_first_violation_is_real(
    domains: Seq<DomainView>,
    upstreams: Seq<UpstreamView>,
    policies: Map<Seq<char>, TokenBucketView>,
    defaults: DefaultsView,
)
    ensures
        first_violation(domains, upstreams, policies, defaults) matches Some(v) ==> violates(
            v,
            domains,
            upstreams,
            policies,
            defaults,
        ),
{
    let by_domain = first_at(domains.len() as int, domain_checks(domains));
    let by_endpoint = first_at(upstreams.len() as int, endpoint_checks(upstreams));
    let by_reference = first_at(
        domains.len() as int,
        reference_checks(domains, upstreams, policies),
    );
    if by_domain is Some {
        let i = lemma_first_at_some(domains.len() as int, domain_checks(domains));
        assert(domain_violation(domains, i) == by_domain);
        if seen_before(domains, i) {
            let j = choose|j: int|
                0 <= j < i && (#[trigger] domains[j]).domain == domains[i].domain;
            assert(domains[j].domain == domains[i].domain);
        }
    } else if defaults_violation(upstreams, defaults) is Some {
    } else if by_endpoint is Some {
        let k = lemma_first_at_some(upstreams.len() as int, endpoint_checks(upstreams));
        assert(endpoint_violation(upstreams[k]) == by_endpoint);
    } else if by_reference is Some {
        let i = lemma_first_at_some(
            domains.len() as int,
            reference_checks(domains, upstreams, policies),
        );
        let d = domains[i];
        assert(references_violation(d, upstreams, policies) == by_reference);
        let j = lemma_first_at_some(d.routes.len() as int, route_checks(d, upstreams, policies));
        assert(route_violation(d.domain, d.routes[j], upstreams, policies) == by_reference);
        let r = domains[i].routes[j];
        if !upstream_resolves(r, upstreams) {
            assert(r.to_upstream == Some(r.to_upstream->0));
        } else {
            assert(rate_limit_ref(r) == Some(rate_limit_ref(r)->0));
        }
    }
}

/// A document can be generated from every valid model.
pub proof fn lemma_valid_model_is_ready(
    domains: Seq<DomainView>,
    upstreams: Seq<UpstreamView>,
    policies: Map<Seq<char>, TokenBucketView>,
    defaults: DefaultsView,
)
    requires
        model_valid(domains, upstreams, policies, defaults),
    ensures
        domains_ready(domains, policies),
{
    assert forall|i: int| 0 <= i < domains.len() implies domain_ready(
        #[trigger] domains[i],
        policies,
    ) by {
        if is_terminate(domains[i]) {
            assert forall|j: int| 0 <= j < domains[i].routes.len() implies route_ready(
                #[trigger] domains[i].routes[j],
                policies,
            ) by {
                assert(policy_resolves(domains[i].routes[j], policies));
            }
        }
    }
}

/* ---------------- the validator ---------------- */

/// Whether an upstream of the given name is loaded.
fn upstream_exists(upstreams: &[UpstreamSpec], name: &str) -> (r: bool)
    ensures
        r == has_upstream(views(upstreams@), name@),
{
    let mut k: usize = 0;
    while k < upstreams.len()
        invariant
            k <= upstreams@.len(),
            forall|m: int| 0 <= m < k ==> (#[trigger] views(upstreams@)[m]).name != name@,
        decreases upstreams@.len() - k,
    {
        if str_eq(upstreams[k].name.as_str(), name) {
            assert(views(upstreams@)[k as int].name == name@);
            return true;
        }
        k += 1;
    }
    false
}

/// Whether an earlier domain fragment has the name of domain `i`.
fn domain_seen_before(domains: &[DomainSpec], i: usize) -> (r: bool)
    requires
        i < domains@.len(),
    ensures
        r == seen_before(views(domains@), i as int),
{
    let mut j: usize = 0;
    while j < i
        invariant
            j <= i < domains@.len(),
            forall|m: int|
                0 <= m < j ==> (#[trigger] views(domains@)[m]).domain != views(domains@)[i as int].domain,
        decreases i - j,
    {
        if str_eq(domains[j].domain.as_str(), domains[i].domain.as_str()) {
            assert(views(domains@)[j as int].domain == views(domains@)[i as int].domain);
            return true;
        }
        j += 1;
    }
    false
}

/// What is wrong with domain `i` by itself.
fn check_domain(domains: &[DomainSpec], i: usize) -> (r: Result<(), ValidationError>)
    requires
        i < domains@.len(),
    ensures
        match r {
            Ok(_) => domain_violation(views(domains@), i as int) is None,
            Err(e) => domain_violation(views(domains@), i as int) == Some(e@),
        },
{
    let d = &domains[i];
    if domain_seen_before(domains, i) {
        return Err(ValidationError::DuplicateDomain { domain: d.domain.clone() });
    }
    let terminate = str_eq(d.mode.as_str(), "terminate_https_443");
    if terminate && d.tls.is_none() {
        return Err(ValidationError::TerminateWithoutTls { domain: d.domain.clone() });
    }
    if !terminate && !str_eq(d.mode.as_str(), "passthrough_https_443") {
        return Err(
            ValidationError::UnsupportedMode { domain: d.domain.clone(), mode: d.mode.clone() },
        );
    }
    Ok(())
}

/// The first reference of a domain's routes that does not resolve.
fn check_references(d: &DomainSpec, upstreams: &[UpstreamSpec], policies: &PoliciesSpec) -> (r:
    Result<(), ValidationError>)
    ensures
        match r {
            Ok(_) => references_violation(d@, views(upstreams@), policies@) is None,
            Err(e) => references_violation(d@, views(upstreams@), policies@) == Some(e@),
        },
{
    let mut j: usize = 0;
    while j < d.routes.len()
        invariant
            j <= d.routes@.len(),
            first_at(j as int, route_checks(d@, views(upstreams@), policies@)) is None,
        decreases d.routes@.len() - j,
    {
        let r = &d.routes[j];
        let ghost checks = route_checks(d@, views(upstreams@), policies@);
        assert(checks(j as int) == route_violation(d.domain@, r@, views(upstreams@), policies@));
        if let Some(name) = &r.to_upstream {
            if !upstream_exists(upstreams, name.as_str()) {
                proof {
                    lemma_first_at_stays(j + 1, d.routes@.len() as int, checks);
                }
                return Err(
                    ValidationError::UnknownUpstream {
                        domain: d.domain.clone(),
                        upstream: name.clone(),
                    },
                );
            }
        }
        if let Some(pfc) = &r.per_filter_config {
            if let Some(key) = &pfc.local_ratelimit {
                if policies.get(key.as_str()).is_none() {
                    proof {
                        lemma_first_at_stays(j + 1, d.routes@.len() as int, checks);
                    }
                    return Err(
                        ValidationError::UnknownRateLimitPolicy {
                            domain: d.domain.clone(),
                            policy: key.clone(),
                        },
                    );
                }
            }
        }
        j += 1;
    }
    Ok(())
}

/// Validates a model: succeeds exactly when all seven invariants hold, and
/// otherwise returns the first violation in the order of the checks.
pub fn validate_model(
    domains: &[DomainSpec],
    upstreams: &[UpstreamSpec],
    policies: &PoliciesSpec,
    defaults: &DefaultsSpec,
) -> (r: Result<(), ValidationError>)
    ensures
        r is Ok <==> model_valid(views(domains@), views(upstreams@), policies@, defaults@),
        match r {
            Ok(_) => first_violation(views(domains@), views(upstreams@), policies@, defaults@)
                is None,
            Err(e) => first_violation(views(domains@), views(upstreams@), policies@, defaults@)
                == Some(e@),
        },
{
    proof {
        lemma_valid_iff_no_violation(views(domains@), views(upstreams@), policies@, defaults@);
    }
    let mut i: usize = 0;
    while i < domains.len()
        invariant
            i <= domains@.len(),
            first_at(i as int, domain_checks(views(domains@))) is None,
        decreases domains@.len() - i,
    {
        assert(domain_checks(views(domains@))(i as int) == domain_violation(
            views(domains@),
            i as int,
        ));
        match check_domain(domains, i) {
            Ok(_) => {},
            Err(e) => {
                proof {
                    lemma_first_at_stays(
                        i + 1,
                        domains@.len() as int,
                        domain_checks(views(domains@)),
                    );
                    lemma_valid_iff_no_violation(views(domains@), views(upstreams@), policies@, defaults@);
                }
                return Err(e);
            },
        }
        i += 1;
    }

    if !upstream_exists(upstreams, defaults.http_default_upstream.as_str()) {
        return Err(
            ValidationError::MissingHttpDefaultUpstream {
                upstream: defaults.http_default_upstream.clone(),
            },
        );
    }
    if !upstream_exists(upstreams, defaults.tls_passthrough_upstream.as_str()) {
        return Err(
            ValidationError::MissingTlsPassthroughUpstream {
                upstream: defaults.tls_passthrough_upstream.clone(),
            },
        );
    }

    let mut k: usize = 0;
    while k < upstreams.len()
        invariant
            k <= upstreams@.len(),
            first_at(domains@.len() as int, domain_checks(views(domains@))) is None,
            defaults_violation(views(upstreams@), defaults@) is None,
            first_at(k as int, endpoint_checks(views(upstreams@))) is None,
        decreases upstreams@.len() - k,
    {
        let u = &upstreams[k];
        assert(endpoint_checks(views(upstreams@))(k as int) == endpoint_violation(u@));
        if u.endpoints.len() == 0 {
            proof {
                lemma_first_at_stays(k + 1, upstreams@.len() as int, endpoint_checks(views(upstreams@)));
                lemma_valid_iff_no_violation(views(domains@), views(upstreams@), policies@, defaults@);
            }
            return Err(ValidationError::NoEndpoints { upstream: u.name.clone() });
        }
        k += 1;
    }

    let mut i: usize = 0;
    while i < domains.len()
        invariant
            i <= domains@.len(),
            first_at(domains@.len() as int, domain_checks(views(domains@))) is None,
            defaults_violation(views(upstreams@), defaults@) is None,
            first_at(upstreams@.len() as int, endpoint_checks(views(upstreams@))) is None,
            first_at(i as int, reference_checks(views(domains@), views(upstreams@), policies@)) is None,
        decreases domains@.len() - i,
    {
        let ghost checks = reference_checks(views(domains@), views(upstreams@), policies@);
        assert(checks(i as int) == references_violation(views(domains@)[i as int], views(upstreams@), policies@));
        match check_references(&domains[i], upstreams, policies) {
            Ok(_) => {},
            Err(e) => {
                proof {
                    lemma_first_at_stays(i + 1, domains@.len() as int, checks);
                    lemma_valid_iff_no_violation(views(domains@), views(upstreams@), policies@, defaults@);
                }
                return Err(e);
            },
        }
        i += 1;
    }
    proof {
        lemma_valid_iff_no_violation(views(domains@), views(upstreams@), policies@, defaults@);
    }
    Ok(())
}

} // verus!
