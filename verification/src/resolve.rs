//! Target resolution: which dataplane instances a command applies to, either
//! straight from the explicit user input or from a config listing obtained
//! by discovery.
use vstd::prelude::*;

use crate::types::{InstanceConfigs, OutputFormat, ShowConfigCmd};

verus! {

/// What a show invocation does, decided before any call is issued.
pub enum ShowPlan {
    /// No config name was given: list the configs known to the service.
    ListConfigs,
    /// Show the named config on the given instances; an empty instance list
    /// still has to be resolved by discovery.
    Query(String, Vec<u32>, OutputFormat),
}

/// The show command's first decision: without a config name it lists
/// configs; with one it queries that config on the requested instances, in
/// the requested format.
pub fn show_plan(cmd: ShowConfigCmd) -> (r: ShowPlan)
    ensures
        cmd.config_name is None <==> r is ListConfigs,
        cmd.config_name matches Some(name) ==> (r matches ShowPlan::Query(n, insts, fmt) && n@
            == name@ && insts@ == cmd.instances@ && fmt == cmd.format),
{
    match cmd.config_name {
        None => ShowPlan::ListConfigs,
        Some(name) => ShowPlan::Query(name, cmd.instances, cmd.format),
    }
}

/// The instance indices of a config listing, in the order the service
/// reported them.
pub open spec fn instance_seq(listing: Seq<InstanceConfigs>) -> Seq<u32> {
    listing.map_values(|c: InstanceConfigs| c.instance)
}

/// Whether resolution has to query the service first: only an empty explicit
/// list falls back to discovery.
pub fn needs_discovery(explicit: &Vec<u32>) -> (r: bool)
    ensures
        r == (explicit@.len() == 0),
{
    explicit.len() == 0
}

/// Extracts the instance indices from a config listing, keeping the
/// service's reported order.
pub fn instance_indices(listing: &Vec<InstanceConfigs>) -> (r: Vec<u32>)
    ensures
        r@ == instance_seq(listing@),
{
    let mut r: Vec<u32> = Vec::new();
    for i in 0..listing.len()
        invariant
            r@.len() == i,
            forall|j: int| 0 <= j < i ==> r@[j] == listing@[j].instance,
    {
        r.push(listing[i].instance);
    }
    proof {
        assert(r@ =~= instance_seq(listing@));
    }
    r
}

/// Resolution policy: a non-empty explicit list is returned unmodified and
/// in the order given (no dedup, no sort); an empty one resolves to the
/// instances of the discovered listing, in the service's reported order.
/// The driver performs the discovery call only when [`needs_discovery`]
/// says so, and hands its result in through `discovered`.
pub fn resolve_instances(explicit: Vec<u32>, discovered: Option<&Vec<InstanceConfigs>>) -> (r: Vec<
    u32,
>)
    requires
        explicit@.len() == 0 ==> discovered is Some,
    ensures
        explicit@.len() > 0 ==> r@ == explicit@,
        explicit@.len() == 0 ==> r@ == instance_seq(discovered->Some_0@),
{
    if explicit.len() > 0 {
        explicit
    } else {
        match discovered {
            Some(listing) => instance_indices(listing),
            None => explicit,
        }
    }
}

} // verus!
