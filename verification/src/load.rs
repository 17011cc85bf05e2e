//! What a run loads: the model as a whole, and the rule that tells the
//! fragment files of a directory from the other files.

use crate::model::{
    views, AccessLogSpec, AccessLogView, AdminSpec, AdminView, DefaultsSpec, DefaultsView,
    DomainSpec, DomainView, ListenersSpec, ListenersView, PoliciesSpec, TokenBucketView,
    UpstreamSpec, UpstreamView, ValidateSpec, ValidateView,
};
use crate::text::str_eq;
use vstd::prelude::*;
use vstd::string::StrSliceExecFns;

verus! {

/// Everything that was loaded for one run.
pub struct Loaded {
    pub admin: AdminSpec,
    pub defaults: DefaultsSpec,
    pub access_log: AccessLogSpec,
    pub validate: ValidateSpec,
    pub listeners: ListenersSpec,
    pub domains: Vec<DomainSpec>,
    pub upstreams: Vec<UpstreamSpec>,
    pub policies: PoliciesSpec,
}

/// The mathematical value of [`Loaded`].
pub struct LoadedView {
    pub admin: AdminView,
    pub defaults: DefaultsView,
    pub access_log: AccessLogView,
    pub validate: ValidateView,
    pub listeners: ListenersView,
    pub domains: Seq<DomainView>,
    pub upstreams: Seq<UpstreamView>,
    pub policies: Map<Seq<char>, TokenBucketView>,
}

impl View for Loaded {
    type V = LoadedView;

    open spec fn view(&self) -> LoadedView {
        LoadedView {
            admin: self.admin@,
            defaults: self.defaults@,
            access_log: self.access_log@,
            validate: self.validate@,
            listeners: self.listeners@,
            domains: views(self.domains@),
            upstreams: views(self.upstreams@),
            policies: self.policies@,
        }
    }
}

/// Whether a text ends with the given ending and has something before it.
pub open spec fn has_extension(name: Seq<char>, ending: Seq<char>) -> bool {
    name.len() > ending.len() && name.subrange(name.len() - ending.len(), name.len() as int)
        == ending
}

/// Whether a file of this name is a fragment file: its extension is `yaml`
/// or `yml`. A name that is nothing but the extension has none.
pub open spec fn is_fragment_name(name: Seq<char>) -> bool {
    has_extension(name, ".yaml"@) || has_extension(name, ".yml"@)
}

fn ends_with(name: &str, ending: &str) -> (r: bool)
    ensures
        r == has_extension(name@, ending@),
{
    let n: usize = name.unicode_len();
    let e: usize = ending.unicode_len();
    n > e && str_eq(name.substring_char(n - e, n), ending)
}

/// Whether a file of this name is read as a fragment.
pub fn is_fragment_file_name(name: &str) -> (r: bool)
    ensures
        r == is_fragment_name(name@),
{
    ends_with(name, ".yaml") || ends_with(name, ".yml")
}

} // verus!
