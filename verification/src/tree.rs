//! The human-readable view: a hierarchy of labelled nodes built from show
//! results or from a config listing. Printing the hierarchy is left to the
//! caller that owns the output stream; the structure and every label are
//! pinned down here.
use vstd::prelude::*;

use crate::numfmt::{dec_seq, hex_pad2, u32_to_dec, u32_to_hex2, usize_to_dec};
use crate::types::{InstanceConfigs, MarkingPolicy, ShowResult, string_views};

verus! {

/// One node of the rendered hierarchy: a label and its ordered children.
#[derive(Debug)]
pub struct TreeNode {
    pub label: String,
    pub children: Vec<TreeNode>,
}

/// The human label of a marking flag; values outside the three defined
/// conditions are shown, not hidden.
pub open spec fn flag_label(flag: u32) -> Seq<char> {
    if flag == 0 {
        "Never"@
    } else if flag == 1 {
        "Default (only if original DSCP is 0)"@
    } else if flag == 2 {
        "Always"@
    } else {
        "Unknown ("@ + dec_seq(flag as nat) + ")"@
    }
}

/// Renders a marking flag as its human label, exactly as [`flag_label`]
/// states.
pub fn flag_to_string(flag: u32) -> (r: String)
    ensures
        r@ == flag_label(flag),
{
    match flag {
        0 => String::from_str("Never"),
        1 => String::from_str("Default (only if original DSCP is 0)"),
        2 => String::from_str("Always"),
        _ => {
            let mut s = String::from_str("Unknown (");
            s.append(u32_to_dec(flag).as_str());
            s.append(")");
            s
        },
    }
}

/// A childless node carrying the given label.
pub open spec fn leaf_ok(n: TreeNode, label: Seq<char>) -> bool {
    n.label@ == label && n.children@.len() == 0
}

/// The "Marking" group: the flag as its human label and the mark in decimal
/// plus two-digit hexadecimal.
pub open spec fn marking_node_ok(n: TreeNode, m: MarkingPolicy) -> bool {
    &&& n.label@ == "Marking"@
    &&& n.children@.len() == 2
    &&& leaf_ok(n.children@[0], "Flag: "@ + flag_label(m.flag))
    &&& leaf_ok(
        n.children@[1],
        "Mark: "@ + dec_seq(m.mark as nat) + " (0x"@ + hex_pad2(m.mark as nat) + ")"@,
    )
}

/// The "Prefixes" group: one leaf per prefix, labelled by its zero-based
/// position and its literal text, in original order. An empty group still
/// renders as an empty header.
pub open spec fn prefixes_node_ok(n: TreeNode, ps: Seq<Seq<char>>) -> bool {
    &&& n.label@ == "Prefixes"@
    &&& n.children@.len() == ps.len()
    &&& forall|j: int|
        0 <= j < ps.len() ==> leaf_ok(#[trigger] n.children@[j], dec_seq(j as nat) + ": "@ + ps[j])
}

/// One instance's subtree: the "Marking" group only when a policy exists,
/// then the "Prefixes" group; nothing when the instance has no config.
pub open spec fn instance_node_ok(n: TreeNode, res: ShowResult) -> bool {
    &&& n.label@ == "Instance "@ + dec_seq(res.instance as nat)
    &&& match res.config {
        None => n.children@.len() == 0,
        Some(c) => match c.dscp_config {
            Some(m) => {
                &&& n.children@.len() == 2
                &&& marking_node_ok(n.children@[0], m)
                &&& prefixes_node_ok(n.children@[1], string_views(c.prefixes@))
            },
            None => {
                &&& n.children@.len() == 1
                &&& prefixes_node_ok(n.children@[0], string_views(c.prefixes@))
            },
        },
    }
}

/// The whole show hierarchy: a "View Configs" root with one child per
/// queried instance, in query order.
pub open spec fn show_tree_ok(t: TreeNode, results: Seq<ShowResult>) -> bool {
    &&& t.label@ == "View Configs"@
    &&& t.children@.len() == results.len()
    &&& forall|i: int|
        0 <= i < results.len() ==> instance_node_ok(#[trigger] t.children@[i], results[i])
}

/// Builds the label "Instance {id}".
fn instance_label(instance: u32) -> (r: String)
    ensures
        r@ == "Instance "@ + dec_seq(instance as nat),
{
    let mut s = String::from_str("Instance ");
    s.append(u32_to_dec(instance).as_str());
    s
}

/// Builds the "Prefixes" group over the given prefix texts.
fn prefixes_node(prefixes: &Vec<String>) -> (r: TreeNode)
    ensures
        prefixes_node_ok(r, string_views(prefixes@)),
{
    let mut children: Vec<TreeNode> = Vec::new();
    for j in 0..prefixes.len()
        invariant
            children@.len() == j,
            forall|k: int|
                0 <= k < j ==> leaf_ok(
                    #[trigger] children@[k],
                    dec_seq(k as nat) + ": "@ + prefixes@[k]@,
                ),
    {
        let mut label = usize_to_dec(j);
        label.append(": ");
        label.append(prefixes[j].as_str());
        children.push(TreeNode { label, children: Vec::new() });
    }
    TreeNode { label: String::from_str("Prefixes"), children }
}

/// Builds the "Marking" group for one policy.
fn marking_node(m: &MarkingPolicy) -> (r: TreeNode)
    ensures
        marking_node_ok(r, *m),
{
    let mut flag_leaf = String::from_str("Flag: ");
    flag_leaf.append(flag_to_string(m.flag).as_str());

    let mut mark_leaf = String::from_str("Mark: ");
    mark_leaf.append(u32_to_dec(m.mark).as_str());
    mark_leaf.append(" (0x");
    mark_leaf.append(u32_to_hex2(m.mark).as_str());
    mark_leaf.append(")");

    let mut children: Vec<TreeNode> = Vec::new();
    children.push(TreeNode { label: flag_leaf, children: Vec::new() });
    children.push(TreeNode { label: mark_leaf, children: Vec::new() });
    TreeNode { label: String::from_str("Marking"), children }
}

/// Builds one instance's subtree of the show hierarchy.
fn instance_node(res: &ShowResult) -> (r: TreeNode)
    ensures
        instance_node_ok(r, *res),
{
    let mut children: Vec<TreeNode> = Vec::new();
    match &res.config {
        None => {},
        Some(c) => {
            match &c.dscp_config {
                Some(m) => children.push(marking_node(m)),
                None => {},
            }
            children.push(prefixes_node(&c.prefixes));
        },
    }
    TreeNode { label: instance_label(res.instance), children }
}

/// Builds the three-level show hierarchy over the collected results,
/// exactly as [`show_tree_ok`] states.
pub fn show_tree(results: &Vec<ShowResult>) -> (r: TreeNode)
    ensures
        show_tree_ok(r, results@),
{
    let mut children: Vec<TreeNode> = Vec::new();
    for i in 0..results.len()
        invariant
            children@.len() == i,
            forall|k: int| 0 <= k < i ==> instance_node_ok(#[trigger] children@[k], results@[k]),
    {
        children.push(instance_node(&results[i]));
    }
    TreeNode { label: String::from_str("View Configs"), children }
}

/// One instance's subtree of the listing hierarchy: one leaf per known
/// configuration name, in service order.
pub open spec fn list_instance_node_ok(n: TreeNode, ic: InstanceConfigs) -> bool {
    &&& n.label@ == "Instance "@ + dec_seq(ic.instance as nat)
    &&& n.children@.len() == ic.configs@.len()
    &&& forall|j: int|
        0 <= j < ic.configs@.len() ==> leaf_ok(#[trigger] n.children@[j], ic.configs@[j]@)
}

/// The whole listing hierarchy: a "List Configs" root with one child per
/// instance, in service order.
pub open spec fn list_tree_ok(t: TreeNode, listing: Seq<InstanceConfigs>) -> bool {
    &&& t.label@ == "List Configs"@
    &&& t.children@.len() == listing.len()
    &&& forall|i: int|
        0 <= i < listing.len() ==> list_instance_node_ok(#[trigger] t.children@[i], listing[i])
}

/// Builds the two-level listing hierarchy over a config listing, exactly as
/// [`list_tree_ok`] states.
pub fn list_tree(listing: &Vec<InstanceConfigs>) -> (r: TreeNode)
    ensures
        list_tree_ok(r, listing@),
{
    let mut children: Vec<TreeNode> = Vec::new();
    for i in 0..listing.len()
        invariant
            children@.len() == i,
            forall|k: int|
                0 <= k < i ==> list_instance_node_ok(#[trigger] children@[k], listing@[k]),
    {
        let ic = &listing[i];
        let mut leaves: Vec<TreeNode> = Vec::new();
        for j in 0..ic.configs.len()
            invariant
                leaves@.len() == j,
                forall|k: int| 0 <= k < j ==> leaf_ok(#[trigger] leaves@[k], ic.configs@[k]@),
        {
            leaves.push(
                TreeNode { label: ic.configs[j].clone(), children: Vec::new() },
            );
        }
        children.push(TreeNode { label: instance_label(ic.instance), children: leaves });
    }
    TreeNode { label: String::from_str("List Configs"), children }
}

} // verus!
