use dscp_cli::numfmt::{u32_to_dec, u32_to_hex, u32_to_hex2, usize_to_dec};
use dscp_cli::tree::{flag_to_string, list_tree, show_tree};
use dscp_cli::types::{InstanceConfigs, MarkingPolicy, ShowConfig, ShowResult};

#[test]
fn decimal_rendering() {
    assert_eq!(u32_to_dec(0), "0");
    assert_eq!(u32_to_dec(7), "7");
    assert_eq!(u32_to_dec(46), "46");
    assert_eq!(u32_to_dec(4294967295), "4294967295");
    assert_eq!(usize_to_dec(0), "0");
    assert_eq!(usize_to_dec(12345), "12345");
}

#[test]
fn hexadecimal_rendering() {
    assert_eq!(u32_to_hex(0), "0");
    assert_eq!(u32_to_hex(255), "ff");
    assert_eq!(u32_to_hex2(5), "05");
    assert_eq!(u32_to_hex2(46), "2e");
    assert_eq!(u32_to_hex2(255), "ff");
    assert_eq!(u32_to_hex2(4096), "1000");
}

#[test]
fn flag_labels() {
    assert_eq!(flag_to_string(0), "Never");
    assert_eq!(flag_to_string(1), "Default (only if original DSCP is 0)");
    assert_eq!(flag_to_string(2), "Always");
    assert_eq!(flag_to_string(7), "Unknown (7)");
}

#[test]
fn show_tree_one_instance_with_marking() {
    let results = vec![ShowResult {
        instance: 0,
        config: Some(ShowConfig {
            dscp_config: Some(MarkingPolicy { flag: 2, mark: 46 }),
            prefixes: vec!["10.0.0.0/8".to_string()],
        }),
    }];
    let t = show_tree(&results);
    assert_eq!(t.label, "View Configs");
    assert_eq!(t.children.len(), 1);
    let inst = &t.children[0];
    assert_eq!(inst.label, "Instance 0");
    assert_eq!(inst.children.len(), 2);
    let marking = &inst.children[0];
    assert_eq!(marking.label, "Marking");
    assert_eq!(marking.children.len(), 2);
    assert_eq!(marking.children[0].label, "Flag: Always");
    assert_eq!(marking.children[1].label, "Mark: 46 (0x2e)");
    let prefixes = &inst.children[1];
    assert_eq!(prefixes.label, "Prefixes");
    assert_eq!(prefixes.children.len(), 1);
    assert_eq!(prefixes.children[0].label, "0: 10.0.0.0/8");
}

#[test]
fn show_tree_without_marking_keeps_prefix_group() {
    let results = vec![ShowResult {
        instance: 3,
        config: Some(ShowConfig { dscp_config: None, prefixes: Vec::new() }),
    }];
    let t = show_tree(&results);
    let inst = &t.children[0];
    assert_eq!(inst.label, "Instance 3");
    // No marking group, but the empty prefix group still renders.
    assert_eq!(inst.children.len(), 1);
    assert_eq!(inst.children[0].label, "Prefixes");
    assert_eq!(inst.children[0].children.len(), 0);
}

#[test]
fn show_tree_unknown_config_renders_bare_instance() {
    let results = vec![ShowResult { instance: 9, config: None }];
    let t = show_tree(&results);
    assert_eq!(t.children.len(), 1);
    assert_eq!(t.children[0].label, "Instance 9");
    assert_eq!(t.children[0].children.len(), 0);
}

#[test]
fn show_tree_preserves_query_order() {
    let results = vec![
        ShowResult { instance: 8, config: None },
        ShowResult { instance: 1, config: None },
    ];
    let t = show_tree(&results);
    assert_eq!(t.children[0].label, "Instance 8");
    assert_eq!(t.children[1].label, "Instance 1");
}

#[test]
fn list_tree_two_levels() {
    let listing = vec![
        InstanceConfigs { instance: 0, configs: vec!["a".to_string(), "b".to_string()] },
        InstanceConfigs { instance: 4, configs: Vec::new() },
    ];
    let t = list_tree(&listing);
    assert_eq!(t.label, "List Configs");
    assert_eq!(t.children.len(), 2);
    assert_eq!(t.children[0].label, "Instance 0");
    assert_eq!(t.children[0].children.len(), 2);
    assert_eq!(t.children[0].children[0].label, "a");
    assert_eq!(t.children[0].children[1].label, "b");
    assert_eq!(t.children[1].label, "Instance 4");
    assert_eq!(t.children[1].children.len(), 0);
}
