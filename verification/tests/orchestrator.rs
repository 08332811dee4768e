use dscp_cli::fanout::{
    add_prefixes_requests, remove_prefixes_requests, set_marking_requests, show_requests, FanOut,
};
use dscp_cli::resolve::{instance_indices, needs_discovery, resolve_instances};
use dscp_cli::resolve::{show_plan, ShowPlan};
use dscp_cli::types::{
    AddPrefixesCmd, InstanceConfigs, OutputFormat, RemovePrefixesCmd, RpcError, SetDscpMarkingCmd,
    ShowConfigCmd,
};
use dscp_cli::{validate_marking, ValidationError};

fn listing() -> Vec<InstanceConfigs> {
    vec![
        InstanceConfigs { instance: 5, configs: vec!["alpha".to_string(), "beta".to_string()] },
        InstanceConfigs { instance: 7, configs: vec!["gamma".to_string()] },
        InstanceConfigs { instance: 2, configs: vec![] },
    ]
}

#[test]
fn validate_marking_accepts_range() {
    assert!(validate_marking(0, 0).is_ok());
    assert!(validate_marking(1, 30).is_ok());
    assert!(validate_marking(2, 63).is_ok());
}

#[test]
fn validate_marking_rejects_flag() {
    assert_eq!(validate_marking(3, 0), Err(ValidationError::InvalidFlag));
    assert_eq!(validate_marking(u32::MAX, 0), Err(ValidationError::InvalidFlag));
}

#[test]
fn validate_marking_rejects_mark() {
    assert_eq!(validate_marking(0, 64), Err(ValidationError::InvalidMark));
    assert_eq!(validate_marking(2, u32::MAX), Err(ValidationError::InvalidMark));
}

#[test]
fn validate_marking_reports_flag_first() {
    assert_eq!(validate_marking(9, 999), Err(ValidationError::InvalidFlag));
}

#[test]
fn invalid_marking_issues_no_calls() {
    // A counting stub gateway: every issued request bumps the counter. An
    // out-of-range marking must abort before anything is issued.
    let mut calls = 0u32;
    let cmd = SetDscpMarkingCmd {
        config_name: "cfg".to_string(),
        instances: vec![1, 2, 3],
        flag: 3,
        mark: 64,
    };
    match set_marking_requests(&cmd) {
        Err(e) => assert_eq!(e, ValidationError::InvalidFlag),
        Ok(requests) => {
            let mut fo: FanOut<_, (), RpcError> = FanOut::new(requests);
            while let Some(_req) = fo.next_request() {
                calls += 1;
                fo.push_response(());
            }
        }
    }
    assert_eq!(calls, 0);
}

#[test]
fn explicit_instances_kept_verbatim() {
    let explicit = vec![3u32, 1, 2, 1];
    let resolved = resolve_instances(explicit.clone(), None);
    assert_eq!(resolved, explicit);
}

#[test]
fn empty_instances_resolve_by_discovery() {
    let l = listing();
    let resolved = resolve_instances(Vec::new(), Some(&l));
    assert_eq!(resolved, vec![5, 7, 2]);
}

#[test]
fn discovery_needed_only_when_empty() {
    assert!(needs_discovery(&Vec::new()));
    assert!(!needs_discovery(&vec![4]));
}

#[test]
fn instance_indices_keep_service_order() {
    assert_eq!(instance_indices(&listing()), vec![5, 7, 2]);
    assert_eq!(instance_indices(&Vec::new()), Vec::<u32>::new());
}

#[test]
fn fan_out_collects_in_order() {
    let name = "cfg".to_string();
    let requests = show_requests(&name, &vec![1, 2, 3]);
    let mut fo: FanOut<_, String, RpcError> = FanOut::new(requests);
    let mut issued = Vec::new();
    while let Some(req) = fo.next_request() {
        let inst = req.target.dataplane_instance;
        issued.push(inst);
        fo.push_response(format!("resp-{inst}"));
    }
    assert!(fo.is_settled());
    assert_eq!(issued, vec![1, 2, 3]);
    let responses = fo.outcome().unwrap();
    assert_eq!(responses, vec!["resp-1", "resp-2", "resp-3"]);
}

#[test]
fn fan_out_fails_fast_on_second_target() {
    let name = "cfg".to_string();
    let requests = show_requests(&name, &vec![1, 2, 3]);
    let mut fo: FanOut<_, u32, RpcError> = FanOut::new(requests);
    let mut attempted = Vec::new();
    while let Some(req) = fo.next_request() {
        let inst = req.target.dataplane_instance;
        attempted.push(inst);
        if inst == 2 {
            fo.fail(RpcError { instance: inst, message: "boom".to_string() });
        } else {
            fo.push_response(inst);
        }
    }
    // Target 1 was processed, target 2 failed, target 3 was never attempted.
    assert_eq!(attempted, vec![1, 2]);
    assert!(fo.is_settled());
    assert_eq!(fo.responses, vec![1]);
    let err = fo.outcome().unwrap_err();
    assert_eq!(err.instance, 2);
    assert_eq!(err.message, "boom");
}

#[test]
fn show_requests_scope_one_target_each() {
    let name = "edge".to_string();
    let reqs = show_requests(&name, &vec![4, 9]);
    assert_eq!(reqs.len(), 2);
    assert_eq!(reqs[0].target.config_name, "edge");
    assert_eq!(reqs[0].target.dataplane_instance, 4);
    assert_eq!(reqs[1].target.dataplane_instance, 9);
}

#[test]
fn add_and_remove_requests_carry_prefixes_in_order() {
    let prefixes = vec!["10.0.0.0/8".to_string(), "192.168.0.0/16".to_string()];
    let adds = add_prefixes_requests(&AddPrefixesCmd {
        config_name: "edge".to_string(),
        instances: vec![1, 2],
        prefix: prefixes.clone(),
    });
    assert_eq!(adds.len(), 2);
    for r in &adds {
        assert_eq!(r.target.config_name, "edge");
        assert_eq!(r.prefixes, prefixes);
    }
    let removes = remove_prefixes_requests(&RemovePrefixesCmd {
        config_name: "edge".to_string(),
        instances: vec![8],
        prefix: prefixes.clone(),
    });
    assert_eq!(removes.len(), 1);
    assert_eq!(removes[0].target.dataplane_instance, 8);
    assert_eq!(removes[0].prefixes, prefixes);
}

#[test]
fn show_plan_lists_without_a_name() {
    let plan = show_plan(ShowConfigCmd {
        config_name: None,
        instances: vec![1],
        format: OutputFormat::Tree,
    });
    assert!(matches!(plan, ShowPlan::ListConfigs));
}

#[test]
fn show_plan_queries_with_a_name() {
    let plan = show_plan(ShowConfigCmd {
        config_name: Some("edge".to_string()),
        instances: vec![4, 2],
        format: OutputFormat::Json,
    });
    match plan {
        ShowPlan::Query(name, instances, format) => {
            assert_eq!(name, "edge");
            assert_eq!(instances, vec![4, 2]);
            assert!(matches!(format, OutputFormat::Json));
        }
        ShowPlan::ListConfigs => panic!("expected a query plan"),
    }
}

#[test]
fn set_marking_requests_carry_validated_policy() {
    let cmd = SetDscpMarkingCmd {
        config_name: "cfg".to_string(),
        instances: vec![0, 6],
        flag: 2,
        mark: 46,
    };
    let reqs = set_marking_requests(&cmd).unwrap();
    assert_eq!(reqs.len(), 2);
    assert_eq!(reqs[0].target.dataplane_instance, 0);
    assert_eq!(reqs[1].target.dataplane_instance, 6);
    for r in &reqs {
        assert_eq!(r.dscp_config.flag, 2);
        assert_eq!(r.dscp_config.mark, 46);
    }
}
