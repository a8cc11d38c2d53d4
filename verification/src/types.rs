//! Plain data types of the analysis engine: usage and request totals, exact
//! percentage ratios and thresholds, and the run configuration.
//!
//! Percentages are kept as exact integer ratios and thresholds as
//! micro-percent fixed-point values, so that threshold comparisons are exact
//! and reproducible.

use vstd::prelude::*;

verus! {

/// Summed measured consumption for a workload; zero-valued by default.
#[derive(Debug, Clone, Copy)]
pub struct PodUsageTotals {
    pub cpu_millicores: i64,
    pub memory_bytes: i64,
}

impl Default for PodUsageTotals {
    fn default() -> (r: Self)
        ensures
            r.cpu_millicores == 0,
            r.memory_bytes == 0,
    {
        PodUsageTotals { cpu_millicores: 0, memory_bytes: 0 }
    }
}

/// Summed declared resource requests; a resource that no container declares
/// is absent, not zero.
#[derive(Debug, Clone, Copy)]
pub struct PodRequestTotals {
    pub cpu_millicores: Option<i64>,
    pub memory_bytes: Option<i64>,
}

impl Default for PodRequestTotals {
    fn default() -> (r: Self)
        ensures
            r.cpu_millicores is None,
            r.memory_bytes is None,
    {
        PodRequestTotals { cpu_millicores: None, memory_bytes: None }
    }
}

/// A utilization percentage kept as the exact ratio `100 * used / capacity`.
#[derive(Debug, Clone, Copy, PartialEq, Eq, Structural)]
pub struct Percentage {
    pub used: i64,
    pub capacity: i64,
}

/// A utilization threshold in micro-percent: `micro_percent / 1_000_000`
/// is the threshold as a percentage.
#[derive(Debug, Clone, Copy, PartialEq, Eq, Structural)]
pub struct Threshold {
    pub micro_percent: i64,
}

impl Percentage {
    /// A percentage ratio is meaningful only for a positive capacity.
    pub open spec fn is_valid(&self) -> bool {
        self.capacity > 0
    }

    /// The percentage is strictly greater than the threshold:
    /// `100 * used / capacity > micro_percent / 1_000_000`, stated without
    /// division.
    pub open spec fn exceeds_spec(&self, t: Threshold) -> bool {
        100000000 * self.used > t.micro_percent * self.capacity
    }

    pub fn new(used: i64, capacity: i64) -> (r: Percentage)
        requires
            capacity > 0,
        ensures
            r.used == used,
            r.capacity == capacity,
            r.is_valid(),
    {
        Percentage { used, capacity }
    }

    /// Exact, exclusive-boundary threshold comparison.
    pub fn exceeds(&self, t: Threshold) -> (r: bool)
        requires
            self.is_valid(),
        ensures
            r == self.exceeds_spec(t),
    {
        proof {
            let a = t.micro_percent as int;
            let b = self.capacity as int;
            assert(-85070591730234615865843651857942052864 <= a * b
                <= 85070591730234615865843651857942052864) by (nonlinear_arith)
                requires
                    -9223372036854775808 <= a <= 9223372036854775807,
                    -9223372036854775808 <= b <= 9223372036854775807,
            ;
        }
        100000000i128 * (self.used as i128) > (t.micro_percent as i128) * (self.capacity as i128)
    }
}

impl Threshold {
    /// A threshold from a whole-percent value.
    pub fn from_percent(p: i64) -> (r: Threshold)
        requires
            -9223372036854 <= p <= 9223372036854,
        ensures
            r.micro_percent == p * 1000000,
    {
        Threshold { micro_percent: p * 1000000 }
    }
}

/// The view of an optional string: its character sequence, when present.
pub open spec fn view_opt_string(o: Option<String>) -> Option<Seq<char>> {
    match o {
        Some(s) => Some(s@),
        None => None,
    }
}

// ---------------------------------------------------------------------------
// run configuration
// ---------------------------------------------------------------------------

/// Immutable per-run policy: which namespaces to scan, the utilization
/// threshold, and the grace periods in minutes.
#[derive(Debug, Clone)]
pub struct Config {
    pub namespaces: Vec<String>,
    pub threshold_percent: Threshold,
    pub slack_webhook_url: String,
    pub restart_grace_minutes: i64,
    pub pending_grace_minutes: i64,
    pub cluster_name: Option<String>,
    pub datacenter_name: Option<String>,
    pub fail_if_no_metrics: bool,
}

// ---------------------------------------------------------------------------
// object snapshots, with timestamps as Unix epoch seconds
// ---------------------------------------------------------------------------

/// A status condition observed on a workload, node or job.
#[derive(Debug, Clone)]
pub struct ConditionSnapshot {
    pub kind: String,
    pub status: String,
    pub message: Option<String>,
    pub reason: Option<String>,
    pub last_transition_time: Option<i64>,
}

/// The most recent terminated run of a container, when one is known.
#[derive(Debug, Clone)]
pub struct TerminatedState {
    pub finished_at: Option<i64>,
    pub reason: Option<String>,
    pub message: Option<String>,
    pub exit_code: i32,
}

/// A container currently waiting to start, with the reported reason.
#[derive(Debug, Clone)]
pub struct WaitingState {
    pub reason: Option<String>,
    pub message: Option<String>,
}

/// Observed state of one container of a workload.
#[derive(Debug, Clone)]
pub struct ContainerStatusSnapshot {
    pub name: String,
    pub restart_count: i32,
    pub last_terminated: Option<TerminatedState>,
    pub waiting: Option<WaitingState>,
}

/// Declared resource requests of one container, as raw quantity text.
#[derive(Debug, Clone)]
pub struct ContainerSpecSnapshot {
    pub cpu_request: Option<String>,
    pub memory_request: Option<String>,
}

/// One workload as observed at collection time.
#[derive(Debug, Clone)]
pub struct WorkloadSnapshot {
    pub name: Option<String>,
    pub phase: Option<String>,
    pub start_time: Option<i64>,
    pub creation_time: Option<i64>,
    pub reason: Option<String>,
    pub message: Option<String>,
    pub conditions: Vec<ConditionSnapshot>,
    pub container_statuses: Vec<ContainerStatusSnapshot>,
    pub containers: Vec<ContainerSpecSnapshot>,
}

/// One compute node as observed at collection time; capacities are raw
/// quantity text.
#[derive(Debug, Clone)]
pub struct NodeSnapshot {
    pub name: Option<String>,
    pub conditions: Vec<ConditionSnapshot>,
    pub cpu_capacity: Option<String>,
    pub memory_capacity: Option<String>,
    pub pods_capacity: Option<String>,
}

/// One batch job as observed at collection time.
#[derive(Debug, Clone)]
pub struct JobSnapshot {
    pub name: Option<String>,
    pub creation_time: Option<i64>,
    pub failed_count: Option<i32>,
    pub conditions: Vec<ConditionSnapshot>,
}

/// One recurring job as observed at collection time.
#[derive(Debug, Clone)]
pub struct CronJobSnapshot {
    pub name: Option<String>,
    pub last_schedule_time: Option<i64>,
}

/// Measured usage of one container, as raw quantity text keyed like the
/// metrics endpoint reports it.
#[derive(Debug, Clone)]
pub struct ContainerMetrics {
    pub name: String,
    pub usage: Vec<(String, String)>,
}

/// Measured usage of one workload: its name and its containers' readings.
#[derive(Debug, Clone)]
pub struct PodMetricsSnapshot {
    pub name: String,
    pub containers: Vec<ContainerMetrics>,
}

/// Measured usage of one node, as raw quantity text.
#[derive(Debug, Clone)]
pub struct NodeMetricsSnapshot {
    pub name: String,
    pub cpu: Option<String>,
    pub memory: Option<String>,
}

/// Number of scheduled units observed on one node, within the monitored
/// namespaces.
#[derive(Debug, Clone)]
pub struct NodePodCount {
    pub name: String,
    pub count: i32,
}

// ---------------------------------------------------------------------------
// issue records
// ---------------------------------------------------------------------------

/// A workload whose utilization exceeds the threshold.
#[derive(Debug, Clone)]
pub struct HeavyUsagePod {
    pub namespace: String,
    pub pod: String,
    pub cpu_pct: Option<Percentage>,
    pub mem_pct: Option<Percentage>,
}

impl View for HeavyUsagePod {
    type V = (Seq<char>, Seq<char>, Option<Percentage>, Option<Percentage>);

    open spec fn view(&self) -> Self::V {
        (self.namespace@, self.pod@, self.cpu_pct, self.mem_pct)
    }
}

/// A container restart observed past the grace period.
#[derive(Debug, Clone)]
pub struct RestartEventInfo {
    pub namespace: String,
    pub pod: String,
    pub container: String,
    pub last_restart_time: Option<i64>,
    pub reason: Option<String>,
    pub message: Option<String>,
    pub exit_code: Option<i32>,
}

impl View for RestartEventInfo {
    type V = (
        Seq<char>,
        Seq<char>,
        Seq<char>,
        Option<i64>,
        Option<Seq<char>>,
        Option<Seq<char>>,
        Option<i32>,
    );

    open spec fn view(&self) -> Self::V {
        (
            self.namespace@,
            self.pod@,
            self.container@,
            self.last_restart_time,
            view_opt_string(self.reason),
            view_opt_string(self.message),
            self.exit_code,
        )
    }
}

/// A workload stuck in the pending phase past the grace period.
#[derive(Debug, Clone)]
pub struct PendingPodInfo {
    pub namespace: String,
    pub pod: String,
    pub since: i64,
    pub duration_minutes: i64,
}

impl View for PendingPodInfo {
    type V = (Seq<char>, Seq<char>, i64, i64);

    open spec fn view(&self) -> Self::V {
        (self.namespace@, self.pod@, self.since, self.duration_minutes)
    }
}

/// A workload in the failed phase past the grace period.
#[derive(Debug, Clone)]
pub struct FailedPodInfo {
    pub namespace: String,
    pub pod: String,
    pub since: i64,
    pub duration_minutes: i64,
    pub reason: Option<String>,
    pub message: Option<String>,
}

impl View for FailedPodInfo {
    type V = (Seq<char>, Seq<char>, i64, i64, Option<Seq<char>>, Option<Seq<char>>);

    open spec fn view(&self) -> Self::V {
        (
            self.namespace@,
            self.pod@,
            self.since,
            self.duration_minutes,
            view_opt_string(self.reason),
            view_opt_string(self.message),
        )
    }
}

/// A running workload that has not become ready past the grace period.
#[derive(Debug, Clone)]
pub struct UnreadyPodInfo {
    pub namespace: String,
    pub pod: String,
    pub since: i64,
    pub duration_minutes: i64,
    pub failed_conditions: Vec<String>,
}

impl View for UnreadyPodInfo {
    type V = (Seq<char>, Seq<char>, i64, i64, Seq<Seq<char>>);

    open spec fn view(&self) -> Self::V {
        (
            self.namespace@,
            self.pod@,
            self.since,
            self.duration_minutes,
            self.failed_conditions@.map_values(|s: String| s@),
        )
    }
}

/// A container killed for exceeding its memory, past the grace period.
#[derive(Debug, Clone)]
pub struct OomKilledInfo {
    pub namespace: String,
    pub pod: String,
    pub container: String,
    pub last_oom_time: Option<i64>,
    pub restart_count: i32,
}

impl View for OomKilledInfo {
    type V = (Seq<char>, Seq<char>, Seq<char>, Option<i64>, i32);

    open spec fn view(&self) -> Self::V {
        (self.namespace@, self.pod@, self.container@, self.last_oom_time, self.restart_count)
    }
}

/// A node carrying problematic conditions.
#[derive(Debug, Clone)]
pub struct ProblematicNodeInfo {
    pub name: String,
    pub conditions: Vec<String>,
    pub since: i64,
}

impl View for ProblematicNodeInfo {
    type V = (Seq<char>, Seq<Seq<char>>, i64);

    open spec fn view(&self) -> Self::V {
        (self.name@, self.conditions@.map_values(|s: String| s@), self.since)
    }
}

/// A node whose utilization exceeds the threshold on some signal.
#[derive(Debug, Clone)]
pub struct NodeUtilizationInfo {
    pub name: String,
    pub cpu_pct: Option<Percentage>,
    pub memory_pct: Option<Percentage>,
    pub pods_count: i32,
    pub pods_capacity: i32,
}

impl View for NodeUtilizationInfo {
    type V = (Seq<char>, Option<Percentage>, Option<Percentage>, i32, i32);

    open spec fn view(&self) -> Self::V {
        (self.name@, self.cpu_pct, self.memory_pct, self.pods_count, self.pods_capacity)
    }
}

/// The kind of volume problem detected.
#[derive(Debug, Clone, PartialEq, Eq, Structural)]
pub enum VolumeIssueType {
    MountFailure,
}

/// A volume problem detected from a workload's container statuses.
#[derive(Debug, Clone)]
pub struct VolumeIssueInfo {
    pub namespace: String,
    pub pod: String,
    pub volume_name: String,
    pub issue_type: VolumeIssueType,
    pub message: String,
}

impl View for VolumeIssueInfo {
    type V = (Seq<char>, Seq<char>, Seq<char>, VolumeIssueType, Seq<char>);

    open spec fn view(&self) -> Self::V {
        (self.namespace@, self.pod@, self.volume_name@, self.issue_type, self.message@)
    }
}

/// A batch job that failed, past the grace period.
#[derive(Debug, Clone)]
pub struct FailedJobInfo {
    pub namespace: String,
    pub job: String,
    pub failed_pods: i32,
    pub last_failure_time: Option<i64>,
    pub reason: Option<String>,
}

impl View for FailedJobInfo {
    type V = (Seq<char>, Seq<char>, i32, Option<i64>, Option<Seq<char>>);

    open spec fn view(&self) -> Self::V {
        (
            self.namespace@,
            self.job@,
            self.failed_pods,
            self.last_failure_time,
            view_opt_string(self.reason),
        )
    }
}

/// A recurring job that appears to have missed runs.
#[derive(Debug, Clone)]
pub struct MissedCronJobInfo {
    pub namespace: String,
    pub cronjob: String,
    pub last_schedule_time: i64,
    pub missed_runs: i64,
}

impl View for MissedCronJobInfo {
    type V = (Seq<char>, Seq<char>, i64, i64);

    open spec fn view(&self) -> Self::V {
        (self.namespace@, self.cronjob@, self.last_schedule_time, self.missed_runs)
    }
}

} // verus!
