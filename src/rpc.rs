//! Markers that select how each part of the `eth` RPC namespace is built:
//! the core API, the filter API, the subscription API, the gas price oracle
//! and the fee history cache. The servers they build live outside this
//! library, with the node.
use vstd::prelude::*;

verus! {

/// Builds the layer-one `eth` API.
#[derive(Default, Debug, Clone, Copy)]
pub struct EthApiBuild;

/// Builds the `eth` filter API.
#[derive(Debug)]
pub struct EthFilterApiBuilder;

/// Builds the `eth` subscription API.
#[derive(Debug)]
pub struct EthPubSubApiBuilder;

/// Builds the gas price oracle of the `eth` API.
#[derive(Debug)]
pub struct GasPriceOracleBuilder;

/// Builds the fee history cache of the `eth` API.
#[derive(Debug)]
pub struct FeeHistoryCacheBuilder;

} // verus!
