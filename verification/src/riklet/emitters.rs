//! What the node agent reports to the scheduler.

use crate::proto::{
    ResourceStatus, StatusPayload, StatusPayloadView, WorkerMetric, WorkerMetricView, WorkerStatus,
    WorkerStatusView,
};
use vstd::prelude::*;
use vstd::string::*;

verus! {

/// How many milliseconds pass between two reports of a node.
pub const METRICS_PERIOD: u64 = 15000;

/// Reports the metrics of the node.
pub struct MetricsEmitter;

impl MetricsEmitter {
    /// The status updates of one report: a single update, under the node's
    /// hostname, that says the node is running and carries its metrics
    /// document.
    pub fn emit_event(hostname: &str, metrics: String) -> (r: Vec<WorkerStatus>)
        ensures
            r@.len() == 1,
            r@[0]@ == (WorkerStatusView {
                identifier: hostname@,
                payload: StatusPayloadView::Worker(
                    WorkerMetricView { status: ResourceStatus::Running, metrics: metrics@ },
                ),
            }),
    {
        let mut updates: Vec<WorkerStatus> = Vec::new();
        updates.push(
            WorkerStatus {
                identifier: String::from_str(hostname),
                payload: StatusPayload::Worker(
                    WorkerMetric { status: ResourceStatus::Running, metrics },
                ),
            },
        );
        updates
    }
}

} // verus!
