//! The status aggregator: composes manifest facts, sync metrics and the
//! reconciled feature list into one display-ready report record per
//! deployment, with defined fallbacks for every optional upstream field.

use crate::errors::InputError;
use crate::features::{reconcile, reconciled};
use crate::manifest::{extract, graft_view, manifest_graft, manifest_start_block};
use crate::metrics::{
    blocks_behind, blocks_behind_band, blocks_behind_severity, get_sync_percentage, health_band,
    health_severity, sync_percentage_str, Severity,
};
use crate::numbers::{
    digits_val, lemma_digits_val_nonneg, parse_block_number, valid_block_number,
};
use crate::status::{
    copy_error, copy_error_vec, copy_opt_error, copy_opt_string, copy_string_vec,
    ChainIndexingStatus, Health, IndexingStatus, SubgraphData, SubgraphError,
};
use vstd::prelude::*;

verus! {

/// Whether pruning is enabled for a deployment. Upstream signals "pruning
/// off" with the maximum signed 32-bit integer in its history-blocks
/// field; that sentinel is decoded here, by name, once.
#[derive(Clone, Copy, Debug, PartialEq, Eq, Structural)]
pub enum PruningStatus {
    Disabled,
    Blocks(i32),
}

/// Chain-derived metrics; absent when a deployment reports no chains, so
/// that nothing ever indexes an empty chain list.
#[derive(Debug, PartialEq)]
pub struct BlockMetrics {
    pub network: String,
    pub chain_head_block: i64,
    pub latest_block: i64,
    pub earliest_block: i64,
    pub sync_percentage: String,
    pub blocks_behind: i64,
    pub blocks_behind_severity: Severity,
}

/// The display-ready report for one deployment. Only the first fatal and
/// first non-fatal error are promoted; the rest stay in the raw sequence.
#[derive(Debug, PartialEq)]
pub struct DeploymentReport {
    pub deployment_id: String,
    pub synced: bool,
    pub health: Health,
    pub health_severity: Severity,
    pub entity_count: String,
    pub paused: Option<bool>,
    pub node: Option<String>,
    pub pruning: PruningStatus,
    pub start_block: i64,
    pub graft: Option<(String, u64)>,
    pub block_metrics: Option<BlockMetrics>,
    pub api_version: Option<String>,
    pub spec_version: String,
    pub network: String,
    pub handlers: Vec<String>,
    pub data_sources: Vec<String>,
    pub features: Vec<String>,
    pub fatal_error: Option<SubgraphError>,
    pub non_fatal_error: Option<SubgraphError>,
    pub non_fatal_errors: Vec<SubgraphError>,
}

/// The outcome for one deployment: either no indexing status matched the
/// deployment id — a reportable empty result, not an error — or a report.
#[derive(Debug, PartialEq)]
pub enum AggregateOutcome {
    NoMatch,
    Report(DeploymentReport),
}

/// The latest block under the absent-as-zero sentinel convention: an
/// upstream chain status without a latest block reads as zero, which is
/// also what routes the sync percentage to its "not available" path.
pub open spec fn latest_block_sentinel(c: ChainIndexingStatus) -> int {
    match c.latest_block {
        Some(b) => digits_val(b.number@),
        None => 0,
    }
}

/// Every numeric field the block metrics need parses and fits.
pub open spec fn chain_numbers_ok(c: ChainIndexingStatus) -> bool {
    valid_block_number(c.chain_head_block.number@) && valid_block_number(c.earliest_block.number@)
        && (c.latest_block matches Some(b) ==> valid_block_number(b.number@))
}

/// A required numeric input of the report does not parse: the resolved
/// start block exceeds the signed 64-bit range, or a chain is present and
/// one of its block numbers is malformed.
pub open spec fn report_numbers_bad(data: SubgraphData, m: Seq<char>) -> bool
    recommends
        data.indexing_statuses@.len() > 0,
{
    manifest_start_block(m) > i64::MAX || (data.indexing_statuses@[0].chains@.len() > 0
        && !chain_numbers_ok(data.indexing_statuses@[0].chains@[0]))
}

/// The sync-percentage denominator vanishes: a chain is present, its
/// latest block is not the absent-sentinel, and the chain head equals the
/// resolved start block.
pub open spec fn report_zero_denominator(data: SubgraphData, m: Seq<char>) -> bool
    recommends
        data.indexing_statuses@.len() > 0,
{
    data.indexing_statuses@[0].chains@.len() > 0 && {
        let c = data.indexing_statuses@[0].chains@[0];
        latest_block_sentinel(c) != 0 && digits_val(c.chain_head_block.number@)
            == manifest_start_block(m)
    }
}

/// The chain-derived metrics hold exactly the parsed block numbers, the
/// sync-percentage text and the banded blocks-behind count.
pub open spec fn block_metrics_match(st: IndexingStatus, start: int, bm: BlockMetrics) -> bool {
    let c = st.chains@[0];
    let latest = latest_block_sentinel(c);
    let head = digits_val(c.chain_head_block.number@);
    bm.network == c.network && bm.chain_head_block == head && bm.latest_block == latest
        && bm.earliest_block == digits_val(c.earliest_block.number@) && bm.sync_percentage@
        == sync_percentage_str(start, latest, head) && bm.blocks_behind == head - latest
        && bm.blocks_behind_severity == blocks_behind_band(head - latest)
}

/// What a successful report holds, field by field: the verbatim upstream
/// copies, the decoded pruning sentinel, the manifest facts, the chain
/// metrics when a chain exists, and the reconciled feature list.
pub open spec fn report_matches(data: SubgraphData, m: Seq<char>, rep: DeploymentReport) -> bool
    recommends
        data.indexing_statuses@.len() > 0,
{
    let st = data.indexing_statuses@[0];
    let f = data.subgraph_features;
    rep.deployment_id == st.subgraph && rep.synced == st.synced && rep.health == st.health
        && rep.health_severity == health_band(st.health) && rep.entity_count == st.entity_count
        && rep.paused == st.paused && rep.node == st.node && rep.pruning == (
    if st.history_blocks == i32::MAX {
        PruningStatus::Disabled
    } else {
        PruningStatus::Blocks(st.history_blocks)
    }) && rep.start_block == manifest_start_block(m) && graft_view(rep.graft) == manifest_graft(m)
        && (st.chains@.len() > 0 ==> (rep.block_metrics matches Some(bm) && block_metrics_match(
        st,
        manifest_start_block(m) as int,
        bm,
    ))) && (st.chains@.len() == 0 ==> rep.block_metrics is None) && rep.api_version
        == f.api_version && rep.spec_version == f.spec_version && rep.network == f.network
        && rep.handlers@ == f.handlers@ && rep.data_sources@ == f.data_sources@
        && rep.features.deep_view() == reconciled(f.features.deep_view(), manifest_graft(m) is Some)
        && rep.fatal_error == st.fatal_error && rep.non_fatal_error == (
    if st.non_fatal_errors@.len() > 0 {
        Some(st.non_fatal_errors@[0])
    } else {
        None
    }) && rep.non_fatal_errors@ == st.non_fatal_errors@
}

/// Builds the report for one deployment from its status response and raw
/// manifest text. An empty status list is a valid terminal state and
/// short-circuits everything else; a malformed required number or a
/// vanishing sync denominator is an input error fatal to this deployment
/// alone; on every other input the full report is owed and produced.
pub fn aggregate(data: &SubgraphData, manifest_text: &str) -> (r: Result<
    AggregateOutcome,
    InputError,
>)
    ensures
        r == Ok::<AggregateOutcome, InputError>(AggregateOutcome::NoMatch)
            <==> data.indexing_statuses@.len() == 0,
        r == Err::<AggregateOutcome, InputError>(InputError::NotANumber)
            <==> data.indexing_statuses@.len() > 0 && report_numbers_bad(*data, manifest_text@),
        r == Err::<AggregateOutcome, InputError>(InputError::ZeroDenominator)
            <==> data.indexing_statuses@.len() > 0 && !report_numbers_bad(*data, manifest_text@)
            && report_zero_denominator(*data, manifest_text@),
        data.indexing_statuses@.len() > 0 && !report_numbers_bad(*data, manifest_text@)
            && !report_zero_denominator(*data, manifest_text@) ==> (r matches Ok(
            AggregateOutcome::Report(rep),
        ) && report_matches(*data, manifest_text@, rep)),
{
    if data.indexing_statuses.len() == 0 {
        return Ok(AggregateOutcome::NoMatch);
    }
    let st = &data.indexing_statuses[0];
    let f = &data.subgraph_features;
    let facts = extract(manifest_text);
    if facts.start_block > 0x7fff_ffff_ffff_ffff {
        return Err(InputError::NotANumber);
    }
    let start: i64 = facts.start_block as i64;
    let block_metrics: Option<BlockMetrics>;
    if st.chains.len() > 0 {
        let c = &st.chains[0];
        let head: i64 = match parse_block_number(c.chain_head_block.number.as_str()) {
            Ok(v) => v,
            Err(e) => {
                return Err(e);
            },
        };
        let earliest: i64 = match parse_block_number(c.earliest_block.number.as_str()) {
            Ok(v) => v,
            Err(e) => {
                return Err(e);
            },
        };
        let latest: i64 = match &c.latest_block {
            Some(b) => match parse_block_number(b.number.as_str()) {
                Ok(v) => v,
                Err(e) => {
                    return Err(e);
                },
            },
            None => 0,
        };
        proof {
            lemma_digits_val_nonneg(c.chain_head_block.number@);
            lemma_digits_val_nonneg(c.earliest_block.number@);
            if c.latest_block is Some {
                lemma_digits_val_nonneg(c.latest_block->Some_0.number@);
            }
        }
        if latest != 0 && head == start {
            return Err(InputError::ZeroDenominator);
        }
        let sync = get_sync_percentage(start, latest, head);
        let behind = blocks_behind(latest, head);
        block_metrics = Some(
            BlockMetrics {
                network: c.network.clone(),
                chain_head_block: head,
                latest_block: latest,
                earliest_block: earliest,
                sync_percentage: sync,
                blocks_behind: behind,
                blocks_behind_severity: blocks_behind_severity(behind),
            },
        );
    } else {
        block_metrics = None;
    }
    let graft_present = facts.graft.is_some();
    let features = reconcile(&f.features, graft_present);
    let report = DeploymentReport {
        deployment_id: st.subgraph.clone(),
        synced: st.synced,
        health: st.health,
        health_severity: health_severity(&st.health),
        entity_count: st.entity_count.clone(),
        paused: st.paused,
        node: copy_opt_string(&st.node),
        pruning: if st.history_blocks == i32::MAX {
            PruningStatus::Disabled
        } else {
            PruningStatus::Blocks(st.history_blocks)
        },
        start_block: start,
        graft: facts.graft,
        block_metrics,
        api_version: copy_opt_string(&f.api_version),
        spec_version: f.spec_version.clone(),
        network: f.network.clone(),
        handlers: copy_string_vec(&f.handlers),
        data_sources: copy_string_vec(&f.data_sources),
        features,
        fatal_error: copy_opt_error(&st.fatal_error),
        non_fatal_error: if st.non_fatal_errors.len() > 0 {
            Some(copy_error(&st.non_fatal_errors[0]))
        } else {
            None
        },
        non_fatal_errors: copy_error_vec(&st.non_fatal_errors),
    };
    Ok(AggregateOutcome::Report(report))
}

} // verus!
