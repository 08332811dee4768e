//! Invocation-scoped data carried between the orchestration steps: targets,
//! marking policies, per-instance results, and command arguments.
use vstd::prelude::*;

verus! {

/// Identifies one remote configuration unit: a config name together with the
/// index of the dataplane instance that holds it.
#[derive(Debug, Clone)]
pub struct Target {
    pub config_name: String,
    pub dataplane_instance: u32,
}

/// A 6-bit DSCP mark together with the condition under which it is applied.
#[derive(Debug, Clone, Copy, PartialEq, Eq, Structural)]
pub struct MarkingPolicy {
    /// 0 = Never, 1 = Default (only if the original DSCP is 0), 2 = Always.
    pub flag: u32,
    /// DSCP value, 0..=63.
    pub mark: u32,
}

/// The observed configuration of one instance: its marking policy, if any is
/// set, and its prefix filter in service order.
#[derive(Debug, Clone)]
pub struct ShowConfig {
    pub dscp_config: Option<MarkingPolicy>,
    pub prefixes: Vec<String>,
}

/// One instance's answer to a show query. `config` is `None` when the
/// instance has nothing under the queried name.
#[derive(Debug, Clone)]
pub struct ShowResult {
    pub instance: u32,
    pub config: Option<ShowConfig>,
}

/// One instance's contribution to a config listing: the configuration names
/// known on it, in service order.
#[derive(Debug, Clone)]
pub struct InstanceConfigs {
    pub instance: u32,
    pub configs: Vec<String>,
}

/// Output format options.
#[derive(Debug, Clone, Copy, PartialEq, Eq, Structural)]
pub enum OutputFormat {
    /// Tree structure (default).
    Tree,
    /// JSON format.
    Json,
}

/// A transport or service failure reported by the driver that performs the
/// calls; carried unchanged to the invocation boundary, with the instance
/// whose call failed attached so operators can tell which instance failed.
#[derive(Debug, Clone)]
pub struct RpcError {
    pub instance: u32,
    pub message: String,
}

/// Arguments of the show command.
#[derive(Debug, Clone)]
pub struct ShowConfigCmd {
    /// DSCP module name to operate on; `None` asks for the config listing.
    pub config_name: Option<String>,
    /// Indices of dataplane instances to query; empty means "all known".
    pub instances: Vec<u32>,
    /// Output format.
    pub format: OutputFormat,
}

/// Arguments of the prefix-add command.
#[derive(Debug, Clone)]
pub struct AddPrefixesCmd {
    /// DSCP module name to operate on.
    pub config_name: String,
    /// Dataplane instances where the changes should be applied.
    pub instances: Vec<u32>,
    /// Prefixes to be added to the input filter, in textual form.
    pub prefix: Vec<String>,
}

/// Arguments of the prefix-remove command.
#[derive(Debug, Clone)]
pub struct RemovePrefixesCmd {
    /// DSCP module name to operate on.
    pub config_name: String,
    /// Dataplane instances where the changes should be applied.
    pub instances: Vec<u32>,
    /// Prefixes to be removed from the input filter, in textual form.
    pub prefix: Vec<String>,
}

/// Arguments of the set-marking command.
#[derive(Debug, Clone)]
pub struct SetDscpMarkingCmd {
    /// DSCP module name to operate on.
    pub config_name: String,
    /// Dataplane instances where the changes should be applied.
    pub instances: Vec<u32>,
    /// DSCP marking flag: 0 - Never, 1 - Default (only if original DSCP is 0), 2 - Always.
    pub flag: u32,
    /// DSCP mark value (0-63).
    pub mark: u32,
}

/// The views of a sequence of strings, element by element.
pub open spec fn string_views(v: Seq<String>) -> Seq<Seq<char>> {
    v.map_values(|s: String| s@)
}

/// Copies a list of strings; the copy shows the same text in the same order.
pub fn clone_strings(v: &Vec<String>) -> (r: Vec<String>)
    ensures
        string_views(r@) == string_views(v@),
{
    let mut r: Vec<String> = Vec::new();
    for i in 0..v.len()
        invariant
            r@.len() == i,
            forall|j: int| 0 <= j < i ==> r@[j]@ == v@[j]@,
    {
        r.push(v[i].clone());
    }
    proof {
        assert(string_views(r@) =~= string_views(v@));
    }
    r
}

} // verus!
