use subgraph_status::errors::InputError;
use subgraph_status::metrics::Severity;
use subgraph_status::numbers::parse_block_number;
use subgraph_status::report::{aggregate, AggregateOutcome, PruningStatus};
use subgraph_status::status::{
    Block, ChainIndexingStatus, Health, IndexingStatus, SubgraphData, SubgraphError,
    SubgraphFeatures,
};

fn features_fixture() -> SubgraphFeatures {
    SubgraphFeatures {
        api_version: Some(String::from("0.0.7")),
        data_sources: vec![String::from("Contract")],
        features: vec![String::from("fullTextSearch")],
        spec_version: String::from("1.0.0"),
        handlers: vec![String::from("event")],
        network: String::from("mainnet"),
    }
}

fn chain_fixture(head: &str, latest: Option<&str>, earliest: &str) -> ChainIndexingStatus {
    ChainIndexingStatus {
        network: String::from("mainnet"),
        chain_head_block: Block { number: String::from(head) },
        earliest_block: Block { number: String::from(earliest) },
        latest_block: latest.map(|n| Block { number: String::from(n) }),
    }
}

fn status_fixture(chains: Vec<ChainIndexingStatus>) -> IndexingStatus {
    IndexingStatus {
        subgraph: String::from("QmWmyoMoctfbAaiEs2G46gpeUmhqFRDW6KWo64y5r581Vz"),
        health: Health::healthy,
        entity_count: String::from("123456"),
        node: Some(String::from("index_node_0")),
        paused: Some(false),
        synced: true,
        history_blocks: 1000,
        fatal_error: None,
        non_fatal_errors: Vec::new(),
        chains,
    }
}

#[test]
fn empty_status_list_is_a_reportable_no_match() {
    let data = SubgraphData {
        subgraph_features: features_fixture(),
        indexing_statuses: Vec::new(),
    };
    assert_eq!(aggregate(&data, ""), Ok(AggregateOutcome::NoMatch));
}

#[test]
fn full_report_carries_all_derived_fields() {
    let data = SubgraphData {
        subgraph_features: features_fixture(),
        indexing_statuses: vec![status_fixture(vec![chain_fixture(
            "200",
            Some("150"),
            "10",
        )])],
    };
    let manifest = "startBlock: 100\nstartBlock: 50\ngraft:\n  base: Qm123\n  block: 42\n";
    let outcome = aggregate(&data, manifest).expect("report owed");
    let report = match outcome {
        AggregateOutcome::Report(r) => r,
        AggregateOutcome::NoMatch => panic!("statuses were not empty"),
    };
    assert_eq!(report.deployment_id, "QmWmyoMoctfbAaiEs2G46gpeUmhqFRDW6KWo64y5r581Vz");
    assert!(report.synced);
    assert_eq!(report.health, Health::healthy);
    assert_eq!(report.health_severity, Severity::Nominal);
    assert_eq!(report.entity_count, "123456");
    assert_eq!(report.paused, Some(false));
    assert_eq!(report.node, Some(String::from("index_node_0")));
    assert_eq!(report.pruning, PruningStatus::Blocks(1000));
    assert_eq!(report.start_block, 50);
    assert_eq!(report.graft, Some((String::from("Qm123"), 42)));
    let metrics = report.block_metrics.expect("one chain present");
    assert_eq!(metrics.network, "mainnet");
    assert_eq!(metrics.chain_head_block, 200);
    assert_eq!(metrics.latest_block, 150);
    assert_eq!(metrics.earliest_block, 10);
    assert_eq!(metrics.sync_percentage, "66%");
    assert_eq!(metrics.blocks_behind, 50);
    assert_eq!(metrics.blocks_behind_severity, Severity::Degraded);
    assert_eq!(report.api_version, Some(String::from("0.0.7")));
    assert_eq!(report.spec_version, "1.0.0");
    assert_eq!(report.network, "mainnet");
    assert_eq!(report.handlers, vec![String::from("event")]);
    assert_eq!(report.data_sources, vec![String::from("Contract")]);
    assert_eq!(
        report.features,
        vec![String::from("fullTextSearch"), String::from("grafting")]
    );
    assert_eq!(report.fatal_error, None);
    assert_eq!(report.non_fatal_error, None);
    assert!(report.non_fatal_errors.is_empty());
}

#[test]
fn pruning_disabled_sentinel_is_decoded() {
    let mut status = status_fixture(vec![chain_fixture("200", Some("150"), "10")]);
    status.history_blocks = 2147483647;
    let data = SubgraphData {
        subgraph_features: features_fixture(),
        indexing_statuses: vec![status],
    };
    let outcome = aggregate(&data, "").expect("report owed");
    match outcome {
        AggregateOutcome::Report(r) => assert_eq!(r.pruning, PruningStatus::Disabled),
        AggregateOutcome::NoMatch => panic!("statuses were not empty"),
    }
}

#[test]
fn absent_latest_block_reads_as_not_available() {
    let data = SubgraphData {
        subgraph_features: features_fixture(),
        indexing_statuses: vec![status_fixture(vec![chain_fixture("200", None, "10")])],
    };
    let outcome = aggregate(&data, "startBlock: 200\n").expect("report owed");
    match outcome {
        AggregateOutcome::Report(r) => {
            let metrics = r.block_metrics.expect("one chain present");
            assert_eq!(metrics.latest_block, 0);
            assert_eq!(metrics.sync_percentage, "N/A");
            assert_eq!(metrics.blocks_behind, 200);
        },
        AggregateOutcome::NoMatch => panic!("statuses were not empty"),
    }
}

#[test]
fn zero_chains_leaves_block_metrics_absent() {
    let data = SubgraphData {
        subgraph_features: features_fixture(),
        indexing_statuses: vec![status_fixture(Vec::new())],
    };
    let outcome = aggregate(&data, "").expect("report owed");
    match outcome {
        AggregateOutcome::Report(r) => assert!(r.block_metrics.is_none()),
        AggregateOutcome::NoMatch => panic!("statuses were not empty"),
    }
}

#[test]
fn malformed_chain_head_is_an_input_error() {
    let data = SubgraphData {
        subgraph_features: features_fixture(),
        indexing_statuses: vec![status_fixture(vec![chain_fixture(
            "not-a-number",
            Some("150"),
            "10",
        )])],
    };
    assert_eq!(aggregate(&data, ""), Err(InputError::NotANumber));
}

#[test]
fn start_block_beyond_signed_range_is_an_input_error() {
    let data = SubgraphData {
        subgraph_features: features_fixture(),
        indexing_statuses: vec![status_fixture(vec![chain_fixture(
            "200",
            Some("150"),
            "10",
        )])],
    };
    assert_eq!(
        aggregate(&data, "startBlock: 9223372036854775808\n"),
        Err(InputError::NotANumber)
    );
}

#[test]
fn vanishing_denominator_is_an_input_error() {
    let data = SubgraphData {
        subgraph_features: features_fixture(),
        indexing_statuses: vec![status_fixture(vec![chain_fixture(
            "50",
            Some("150"),
            "10",
        )])],
    };
    assert_eq!(
        aggregate(&data, "startBlock: 50\n"),
        Err(InputError::ZeroDenominator)
    );
}

#[test]
fn first_non_fatal_error_is_promoted() {
    let mut status = status_fixture(vec![chain_fixture("200", Some("150"), "10")]);
    status.non_fatal_errors = vec![
        SubgraphError {
            message: String::from("first"),
            block: Some(Block { number: String::from("7") }),
            handlers: None,
            deterministic: true,
        },
        SubgraphError {
            message: String::from("second"),
            block: None,
            handlers: None,
            deterministic: false,
        },
    ];
    let data = SubgraphData {
        subgraph_features: features_fixture(),
        indexing_statuses: vec![status],
    };
    let outcome = aggregate(&data, "").expect("report owed");
    match outcome {
        AggregateOutcome::Report(r) => {
            let promoted = r.non_fatal_error.expect("one error present");
            assert_eq!(promoted.message, "first");
            assert_eq!(r.non_fatal_errors.len(), 2);
            assert_eq!(r.non_fatal_errors[1].message, "second");
        },
        AggregateOutcome::NoMatch => panic!("statuses were not empty"),
    }
}

#[test]
fn parse_block_number_accepts_digit_runs_in_range() {
    assert_eq!(parse_block_number("0"), Ok(0));
    assert_eq!(parse_block_number("007"), Ok(7));
    assert_eq!(parse_block_number("9223372036854775807"), Ok(9223372036854775807));
}

#[test]
fn parse_block_number_rejects_everything_else() {
    assert_eq!(parse_block_number(""), Err(InputError::NotANumber));
    assert_eq!(parse_block_number("12a"), Err(InputError::NotANumber));
    assert_eq!(parse_block_number("-3"), Err(InputError::NotANumber));
    assert_eq!(parse_block_number("+3"), Err(InputError::NotANumber));
    assert_eq!(parse_block_number(" 3"), Err(InputError::NotANumber));
    assert_eq!(parse_block_number("9223372036854775808"), Err(InputError::NotANumber));
    assert_eq!(parse_block_number("99999999999999999999999999"), Err(InputError::NotANumber));
}
