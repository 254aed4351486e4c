//! Models of the container-apiserver protocol that the client logic handles.

use vstd::prelude::*;

use std::collections::HashMap;

verus! {

/// Filters sent with `containerList`.
///
/// An empty `ContainerListFilters` (the `Default` impl) matches all
/// containers.
#[derive(Debug)]
pub struct ContainerListFilters {
    pub ids: Vec<String>,
    pub labels: HashMap<String, String>,
}

impl Default for ContainerListFilters {
    /// No ids and no labels: every container matches.
    fn default() -> (r: ContainerListFilters)
        ensures
            r.ids@.len() == 0,
            r.labels@ == Map::<String, String>::empty(),
    {
        ContainerListFilters { ids: Vec::new(), labels: HashMap::new() }
    }
}

/// Resource-usage statistics of one container, as `containerStats` reports
/// them.
#[derive(Debug)]
pub struct ContainerStats {
    pub id: String,
    pub cpu_usage_usec: u64,
    pub num_processes: u64,
    pub memory_usage_bytes: u64,
    pub memory_limit_bytes: u64,
    pub block_read_bytes: u64,
    pub block_write_bytes: u64,
    pub network_rx_bytes: u64,
    pub network_tx_bytes: u64,
}

/// The payload that container-apiserver stores, as JSON, under
/// `com.apple.container.xpc.error` when it refuses a request.
#[derive(Debug)]
pub struct ApiErrorPayload {
    pub code: String,
    pub message: String,
}

} // verus!
