use subgraph_status::endpoint::{is_valid_deployment_id, resolve_status_url, update_available};
use subgraph_status::features::reconcile;
use subgraph_status::manifest::{extract, get_graft_values, get_start_block};
use subgraph_status::metrics::{
    blocks_behind, blocks_behind_severity, get_sync_percentage, health_severity, Severity,
};
use subgraph_status::status::Health;
use subgraph_status::text::capitalize_first_letter;

#[test]
fn start_block_is_minimum_of_declarations() {
    let manifest = String::from(
        "dataSources:\n  source:\n    startBlock: 100\n  other:\n    startBlock: 50\n",
    );
    assert_eq!(get_start_block(&manifest), "50");
}

#[test]
fn start_block_defaults_to_zero_without_declarations() {
    let manifest = String::from("dataSources:\n  source:\n    address: '0xabc'\n");
    assert_eq!(get_start_block(&manifest), "0");
}

#[test]
fn start_block_single_declaration() {
    let manifest = String::from("startBlock: 7");
    assert_eq!(get_start_block(&manifest), "7");
}

#[test]
fn start_block_overflowing_candidate_is_discarded() {
    let manifest = String::from(
        "startBlock: 99999999999999999999999999\nstartBlock: 7\n",
    );
    assert_eq!(get_start_block(&manifest), "7");
}

#[test]
fn start_block_only_overflowing_candidates_means_zero() {
    let manifest = String::from("startBlock: 99999999999999999999999999\n");
    assert_eq!(get_start_block(&manifest), "0");
}

#[test]
fn start_block_without_digits_is_no_declaration() {
    let manifest = String::from("startBlock: soon\nstartBlock: 12\n");
    assert_eq!(get_start_block(&manifest), "12");
}

#[test]
fn graft_values_extracted_when_both_parts_present() {
    let manifest = String::from("graft:\n  base: Qm123\n  block: 42\n");
    assert_eq!(get_graft_values(&manifest), Some((String::from("Qm123"), 42)));
}

#[test]
fn graft_base_without_block_yields_none() {
    let manifest = String::from("graft:\n  base: Qm123\n");
    assert_eq!(get_graft_values(&manifest), None);
}

#[test]
fn graft_block_without_base_yields_none() {
    let manifest = String::from("graft:\n  block: 42\n");
    assert_eq!(get_graft_values(&manifest), None);
}

#[test]
fn graft_requires_line_break_after_key() {
    let manifest = String::from("graft: base: Qm123\nblock: 42\n");
    assert_eq!(get_graft_values(&manifest), None);
}

#[test]
fn graft_block_overflow_yields_none() {
    let manifest = String::from("graft:\n  base: Qm123\n  block: 99999999999999999999999999\n");
    assert_eq!(get_graft_values(&manifest), None);
}

#[test]
fn extract_reports_minimum_and_graft_together() {
    let manifest = String::from(
        "startBlock: 100\nstartBlock: 50\ngraft:\n  base: Qm123\n  block: 42\n",
    );
    let facts = extract(&manifest);
    assert_eq!(facts.start_block, 50);
    assert_eq!(facts.graft, Some((String::from("Qm123"), 42)));
}

#[test]
fn sync_percentage_example_is_66() {
    assert_eq!(get_sync_percentage(50, 150, 200), "66%");
}

#[test]
fn sync_percentage_na_when_latest_is_zero() {
    assert_eq!(get_sync_percentage(0, 0, 100), "N/A");
    assert_eq!(get_sync_percentage(50, 0, 50), "N/A");
    assert_eq!(get_sync_percentage(123, 0, 0), "N/A");
}

#[test]
fn sync_percentage_clamped_at_100() {
    assert_eq!(get_sync_percentage(0, 150, 100), "100%");
    assert_eq!(get_sync_percentage(0, 100, 100), "100%");
}

#[test]
fn sync_percentage_monotone_on_samples() {
    assert_eq!(get_sync_percentage(50, 150, 200), "66%");
    assert_eq!(get_sync_percentage(50, 160, 200), "73%");
    assert_eq!(get_sync_percentage(50, 200, 200), "100%");
}

#[test]
fn sync_percentage_negative_when_latest_before_start() {
    assert_eq!(get_sync_percentage(100, 50, 200), "-50%");
}

#[test]
fn blocks_behind_example_is_50() {
    assert_eq!(blocks_behind(150, 200), 50);
}

#[test]
fn blocks_behind_passes_negative_values_through() {
    assert_eq!(blocks_behind(210, 200), -10);
}

#[test]
fn blocks_behind_bands_match_thresholds() {
    assert_eq!(blocks_behind_severity(0), Severity::Nominal);
    assert_eq!(blocks_behind_severity(29), Severity::Nominal);
    assert_eq!(blocks_behind_severity(30), Severity::Degraded);
    assert_eq!(blocks_behind_severity(50), Severity::Degraded);
    assert_eq!(blocks_behind_severity(999), Severity::Degraded);
    assert_eq!(blocks_behind_severity(1000), Severity::Critical);
}

#[test]
fn health_maps_to_three_tiers() {
    assert_eq!(health_severity(&Health::healthy), Severity::Nominal);
    assert_eq!(health_severity(&Health::unhealthy), Severity::Degraded);
    assert_eq!(health_severity(&Health::failed), Severity::Critical);
}

#[test]
fn reconcile_appends_grafting_when_graft_detected() {
    let declared = vec![String::from("fullTextSearch")];
    let merged = reconcile(&declared, true);
    assert_eq!(merged, vec![String::from("fullTextSearch"), String::from("grafting")]);
}

#[test]
fn reconcile_keeps_existing_grafting_entry() {
    let declared = vec![String::from("grafting"), String::from("ipfsOnEthereumContracts")];
    let merged = reconcile(&declared, true);
    assert_eq!(merged, declared);
}

#[test]
fn reconcile_removes_grafting_without_graft() {
    let declared = vec![
        String::from("grafting"),
        String::from("fullTextSearch"),
        String::from("grafting"),
    ];
    let merged = reconcile(&declared, false);
    assert_eq!(merged, vec![String::from("fullTextSearch")]);
}

#[test]
fn reconcile_is_idempotent_on_samples() {
    let declared = vec![String::from("fullTextSearch")];
    let once = reconcile(&declared, true);
    let twice = reconcile(&once, true);
    assert_eq!(twice, once);

    let with_graft = vec![String::from("grafting"), String::from("fullTextSearch")];
    let once = reconcile(&with_graft, false);
    let twice = reconcile(&once, false);
    assert_eq!(twice, once);
}

#[test]
fn reconcile_may_yield_empty_list() {
    let declared = vec![String::from("grafting")];
    assert_eq!(reconcile(&declared, false), Vec::<String>::new());
}

#[test]
fn capitalize_maps_first_letter_to_uppercase() {
    assert_eq!(capitalize_first_letter(&String::from("block")), "Block");
    assert_eq!(capitalize_first_letter(&String::from("hello world")), "Hello world");
}

#[test]
fn capitalize_of_empty_word_is_empty() {
    assert_eq!(capitalize_first_letter(&String::from("")), "");
}

#[test]
fn status_url_local_flag_wins() {
    assert_eq!(
        resolve_status_url(true, Some(String::from("https://example.com"))),
        "http://localhost:8030/graphql"
    );
}

#[test]
fn status_url_default_when_unconfigured() {
    assert_eq!(
        resolve_status_url(false, None),
        "https://indexer.upgrade.thegraph.com/status"
    );
}

#[test]
fn status_url_normalization() {
    assert_eq!(
        resolve_status_url(false, Some(String::from("https://example.com/status"))),
        "https://example.com/status"
    );
    assert_eq!(
        resolve_status_url(false, Some(String::from("https://example.com/"))),
        "https://example.com/status"
    );
    assert_eq!(
        resolve_status_url(false, Some(String::from("https://example.com"))),
        "https://example.com/status"
    );
}

#[test]
fn deployment_id_validation() {
    assert!(is_valid_deployment_id("QmWmyoMoctfbAaiEs2G46gpeUmhqFRDW6KWo64y5r581Vz"));
    assert!(!is_valid_deployment_id("QmWmyoMoctfbAaiEs2G46gpeUmhqFRDW6KWo64y5r581V"));
    assert!(!is_valid_deployment_id("XmWmyoMoctfbAaiEs2G46gpeUmhqFRDW6KWo64y5r581Vz"));
    assert!(!is_valid_deployment_id(""));
}

#[test]
fn update_announced_only_on_version_change() {
    assert!(!update_available(&String::from("1.2.3"), &String::from("1.2.3")));
    assert!(update_available(&String::from("1.2.3"), &String::from("1.3.0")));
}
