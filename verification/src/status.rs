//! The data model of an indexing-status response: the per-deployment fields
//! copied verbatim from the upstream API, with every field that became
//! optional over upstream versions modeled as an explicit `Option`.

use vstd::prelude::*;

verus! {

/// Indexing health as the upstream API reports it. The variant names are
/// spelled as the wire values are.
#[allow(non_camel_case_types)]
#[derive(Clone, Copy, Debug, PartialEq, Eq, Structural)]
pub enum Health {
    healthy,
    unhealthy,
    failed,
}

/// A block reference. The number is kept as decimal text at the API
/// boundary: upstream chains can exceed 32-bit ranges comfortably, so it is
/// only narrowed to a signed 64-bit integer behind an explicit range check.
#[derive(Debug, PartialEq)]
pub struct Block {
    pub number: String,
}

/// Chain-level indexing state. `latest_block` is absent while the chain has
/// not been observed yet.
#[derive(Debug, PartialEq)]
pub struct ChainIndexingStatus {
    pub network: String,
    pub chain_head_block: Block,
    pub earliest_block: Block,
    pub latest_block: Option<Block>,
}

/// One indexing error reported for a deployment.
#[derive(Debug, PartialEq)]
pub struct SubgraphError {
    pub message: String,
    pub block: Option<Block>,
    pub handlers: Option<String>,
    pub deterministic: bool,
}

/// The per-deployment status record, copied verbatim from the upstream
/// response; no derivation happens here.
#[derive(Debug, PartialEq)]
pub struct IndexingStatus {
    pub subgraph: String,
    pub health: Health,
    pub entity_count: String,
    pub node: Option<String>,
    pub paused: Option<bool>,
    pub synced: bool,
    pub history_blocks: i32,
    pub fatal_error: Option<SubgraphError>,
    pub non_fatal_errors: Vec<SubgraphError>,
    pub chains: Vec<ChainIndexingStatus>,
}

/// The declared feature set of a deployment, before reconciliation.
#[derive(Debug, PartialEq)]
pub struct SubgraphFeatures {
    pub api_version: Option<String>,
    pub data_sources: Vec<String>,
    pub features: Vec<String>,
    pub spec_version: String,
    pub handlers: Vec<String>,
    pub network: String,
}

/// Everything one status query returns for a deployment id.
#[derive(Debug, PartialEq)]
pub struct SubgraphData {
    pub subgraph_features: SubgraphFeatures,
    pub indexing_statuses: Vec<IndexingStatus>,
}

/// An owned copy of a block reference, equal to the original.
pub fn copy_block(b: &Block) -> (r: Block)
    ensures
        r == *b,
{
    Block { number: b.number.clone() }
}

/// An owned copy of an optional block reference, equal to the original.
pub fn copy_opt_block(b: &Option<Block>) -> (r: Option<Block>)
    ensures
        r == *b,
{
    match b {
        Some(inner) => Some(copy_block(inner)),
        None => None,
    }
}

/// An owned copy of an optional string, equal to the original.
pub fn copy_opt_string(s: &Option<String>) -> (r: Option<String>)
    ensures
        r == *s,
{
    match s {
        Some(inner) => Some(inner.clone()),
        None => None,
    }
}

/// An owned copy of one reported error, equal to the original.
pub fn copy_error(e: &SubgraphError) -> (r: SubgraphError)
    ensures
        r == *e,
{
    SubgraphError {
        message: e.message.clone(),
        block: copy_opt_block(&e.block),
        handlers: copy_opt_string(&e.handlers),
        deterministic: e.deterministic,
    }
}

/// An owned copy of an optional reported error, equal to the original.
pub fn copy_opt_error(e: &Option<SubgraphError>) -> (r: Option<SubgraphError>)
    ensures
        r == *e,
{
    match e {
        Some(inner) => Some(copy_error(inner)),
        None => None,
    }
}

/// An owned copy of a list of strings whose view equals the original's.
pub fn copy_string_vec(v: &Vec<String>) -> (r: Vec<String>)
    ensures
        r@ == v@,
{
    let mut out: Vec<String> = Vec::new();
    let mut i: usize = 0;
    while i < v.len()
        invariant
            i <= v@.len(),
            out@ == v@.subrange(0, i as int),
        decreases v@.len() - i,
    {
        out.push(v[i].clone());
        proof {
            assert(out@ =~= v@.subrange(0, i + 1));
        }
        i = i + 1;
    }
    proof {
        assert(v@.subrange(0, v@.len() as int) =~= v@);
    }
    out
}

/// An owned copy of a list of reported errors whose view equals the
/// original's.
pub fn copy_error_vec(v: &Vec<SubgraphError>) -> (r: Vec<SubgraphError>)
    ensures
        r@ == v@,
{
    let mut out: Vec<SubgraphError> = Vec::new();
    let mut i: usize = 0;
    while i < v.len()
        invariant
            i <= v@.len(),
            out@ == v@.subrange(0, i as int),
        decreases v@.len() - i,
    {
        out.push(copy_error(&v[i]));
        proof {
            assert(out@ =~= v@.subrange(0, i + 1));
        }
        i = i + 1;
    }
    proof {
        assert(v@.subrange(0, v@.len() as int) =~= v@);
    }
    out
}

} // verus!
