use dscp_cli::structured::{parse_structured, render_structured};
use dscp_cli::types::{MarkingPolicy, ShowConfig, ShowResult};

fn sample() -> Vec<ShowResult> {
    vec![
        ShowResult {
            instance: 0,
            config: Some(ShowConfig {
                dscp_config: Some(MarkingPolicy { flag: 2, mark: 46 }),
                prefixes: vec!["10.0.0.0/8".to_string(), "192.168.0.0/16".to_string()],
            }),
        },
        ShowResult {
            instance: 7,
            config: Some(ShowConfig { dscp_config: None, prefixes: Vec::new() }),
        },
        ShowResult { instance: 2, config: None },
    ]
}

fn assert_same(a: &[ShowResult], b: &[ShowResult]) {
    assert_eq!(a.len(), b.len());
    for (x, y) in a.iter().zip(b.iter()) {
        assert_eq!(x.instance, y.instance);
        match (&x.config, &y.config) {
            (None, None) => {}
            (Some(cx), Some(cy)) => {
                assert_eq!(cx.dscp_config, cy.dscp_config);
                assert_eq!(cx.prefixes, cy.prefixes);
            }
            _ => panic!("config presence differs"),
        }
    }
}

#[test]
fn structured_document_is_exact() {
    let doc = render_structured(&vec![ShowResult {
        instance: 0,
        config: Some(ShowConfig {
            dscp_config: Some(MarkingPolicy { flag: 2, mark: 46 }),
            prefixes: vec!["10.0.0.0/8".to_string()],
        }),
    }]);
    assert_eq!(
        doc,
        "[{\"instance\":0,\"config\":{\"dscp_config\":{\"flag\":2,\"mark\":46},\"prefixes\":[\"10.0.0.0/8\"]}}]"
    );
}

#[test]
fn structured_document_empty_list() {
    assert_eq!(render_structured(&Vec::new()), "[]");
    let back = parse_structured("[]").unwrap();
    assert_eq!(back.len(), 0);
}

#[test]
fn structured_round_trip_recovers_fields() {
    let results = sample();
    let doc = render_structured(&results);
    let back = parse_structured(&doc).unwrap();
    assert_same(&results, &back);
}

#[test]
fn structured_round_trip_with_escaped_text() {
    let results = vec![ShowResult {
        instance: 1,
        config: Some(ShowConfig {
            dscp_config: None,
            prefixes: vec!["with\"quote".to_string(), "back\\slash".to_string()],
        }),
    }];
    let doc = render_structured(&results);
    let back = parse_structured(&doc).unwrap();
    assert_same(&results, &back);
}

#[test]
fn structured_output_is_real_json() {
    let doc = render_structured(&sample());
    let v: serde_json::Value = serde_json::from_str(&doc).unwrap();
    let arr = v.as_array().unwrap();
    assert_eq!(arr.len(), 3);
    assert_eq!(arr[0]["instance"].as_u64(), Some(0));
    assert_eq!(arr[0]["config"]["dscp_config"]["flag"].as_u64(), Some(2));
    assert_eq!(arr[0]["config"]["dscp_config"]["mark"].as_u64(), Some(46));
    assert_eq!(arr[0]["config"]["prefixes"][0].as_str(), Some("10.0.0.0/8"));
    assert_eq!(arr[0]["config"]["prefixes"][1].as_str(), Some("192.168.0.0/16"));
    assert!(arr[1]["config"]["dscp_config"].is_null());
    assert_eq!(arr[1]["config"]["prefixes"].as_array().unwrap().len(), 0);
    assert!(arr[2]["config"].is_null());
}

#[test]
fn identical_results_render_byte_identical() {
    let first = render_structured(&sample());
    let second = render_structured(&sample());
    assert_eq!(first, second);
}

#[test]
fn parse_rejects_malformed_documents() {
    assert!(parse_structured("").is_none());
    assert!(parse_structured("{}").is_none());
    assert!(parse_structured("[").is_none());
    assert!(parse_structured("[]]").is_none());
    assert!(parse_structured("[{\"instance\":0}]").is_none());
    assert!(parse_structured("[{\"instance\":a,\"config\":null}]").is_none());
}

#[test]
fn parse_reads_a_plain_document() {
    let back =
        parse_structured("[{\"instance\":12,\"config\":null},{\"instance\":3,\"config\":{\"dscp_config\":{\"flag\":0,\"mark\":0},\"prefixes\":[]}}]")
            .unwrap();
    assert_eq!(back.len(), 2);
    assert_eq!(back[0].instance, 12);
    assert!(back[0].config.is_none());
    assert_eq!(back[1].instance, 3);
    let c = back[1].config.as_ref().unwrap();
    assert_eq!(c.dscp_config, Some(MarkingPolicy { flag: 0, mark: 0 }));
    assert!(c.prefixes.is_empty());
}

#[test]
fn parse_rejects_numbers_beyond_u32() {
    assert!(parse_structured("[{\"instance\":4294967295,\"config\":null}]").is_some());
    assert!(parse_structured("[{\"instance\":4294967296,\"config\":null}]").is_none());
}
