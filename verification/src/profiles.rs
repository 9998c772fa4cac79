//! Session counts per configuration directory, for the profile filter.
use vstd::prelude::*;

use crate::order::keep_where;

verus! {

/// One configuration directory with at least one indexed session.
pub struct ProfileSummary {
    /// Short name used in the `profiles` filter parameter.
    pub id: String,
    /// Absolute configuration directory, for a tooltip.
    pub config_dir: String,
    pub count: usize,
}

/// The profile list.
pub struct ProfilesResponse {
    pub profiles: Vec<ProfileSummary>,
}

/// Attributed to a configuration directory (sessions indexed before
/// attribution existed carry an empty one and belong to no profile).
pub open spec fn attributed(p: ProfileSummary) -> bool {
    p.config_dir@.len() > 0
}

/// The profile list: the directories with sessions, in the order given,
/// without the unattributed entry.
pub fn profile_list(rows: Vec<ProfileSummary>) -> (res: ProfilesResponse)
    ensures
        res.profiles@ == rows@.filter(|p: ProfileSummary| attributed(p)),
{
    let keep = |p: &ProfileSummary| -> (b: bool)
        ensures
            b == attributed(*p),
    { !p.config_dir.as_str().is_empty() };
    ProfilesResponse { profiles: keep_where(rows, keep, Ghost(|p: ProfileSummary| attributed(p))) }
}

} // verus!
