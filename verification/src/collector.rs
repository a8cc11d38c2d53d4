//! Per-scope collection: runs every analyzer of a scope against one
//! captured instant, so that all grace-period comparisons in a batch use a
//! consistent time.

use vstd::prelude::*;

use crate::base::spec_usage_entries;
use crate::jobs::analyze_failed_jobs;
use crate::jobs::analyze_missed_cronjobs;
use crate::jobs::spec_failed_jobs;
use crate::jobs::spec_missed_cronjobs;
use crate::nodes::analyze_node_utilization;
use crate::nodes::analyze_problematic_nodes;
use crate::nodes::spec_node_utilization;
use crate::nodes::spec_problematic_nodes;
use crate::pods::analyze_failed_pods_with_pods;
use crate::pods::analyze_heavy_usage_with_pods;
use crate::pods::analyze_oom_killed_with_pods;
use crate::pods::analyze_pending_pods_with_pods;
use crate::pods::analyze_restarts_with_pods;
use crate::pods::analyze_unready_pods_with_pods;
use crate::pods::spec_failed_pods;
use crate::pods::spec_heavy_usage;
use crate::pods::spec_oom_killed;
use crate::pods::spec_pending_pods;
use crate::pods::spec_restarts;
use crate::pods::spec_unready_pods;
use crate::report::ClusterMetrics;
use crate::report::JobMetrics;
use crate::report::PodMetrics;
use crate::report::VolumeMetrics;
use crate::types::Config;
use crate::types::CronJobSnapshot;
use crate::types::FailedJobInfo;
use crate::types::FailedPodInfo;
use crate::types::HeavyUsagePod;
use crate::types::JobSnapshot;
use crate::types::MissedCronJobInfo;
use crate::types::NodeMetricsSnapshot;
use crate::types::NodePodCount;
use crate::types::NodeSnapshot;
use crate::types::NodeUtilizationInfo;
use crate::types::OomKilledInfo;
use crate::types::PendingPodInfo;
use crate::types::PodMetricsSnapshot;
use crate::types::ProblematicNodeInfo;
use crate::types::RestartEventInfo;
use crate::types::UnreadyPodInfo;
use crate::types::VolumeIssueInfo;
use crate::types::WorkloadSnapshot;
use crate::volumes::analyze_volume_issues;
use crate::volumes::spec_volume_issues;

verus! {

/// Relies on chrono's `Utc::now`: the capture instant as Unix epoch
/// seconds.  The result depends on the system clock, so nothing is promised
/// of it.
#[verifier::external_body]
fn now_epoch_seconds() -> i64 {
    chrono::Utc::now().timestamp()
}

/// The workload issue lists are exactly the analyzer results at the instant
/// `now`.
pub open spec fn pod_metrics_at(
    r: PodMetrics,
    ns: Seq<char>,
    cfg: Config,
    pods: Seq<WorkloadSnapshot>,
    items: Seq<PodMetricsSnapshot>,
    now: i64,
) -> bool {
    &&& r.heavy_usage@.map_values(|x: HeavyUsagePod| x@) == spec_heavy_usage(
        ns,
        cfg.threshold_percent,
        pods,
        spec_usage_entries(items),
    )
    &&& r.restarts@.map_values(|x: RestartEventInfo| x@) == spec_restarts(
        ns,
        cfg.restart_grace_minutes,
        now,
        pods,
    )
    &&& r.pending@.map_values(|x: PendingPodInfo| x@) == spec_pending_pods(
        ns,
        cfg.pending_grace_minutes,
        now,
        pods,
    )
    &&& r.failed@.map_values(|x: FailedPodInfo| x@) == spec_failed_pods(
        ns,
        cfg.pending_grace_minutes,
        now,
        pods,
    )
    &&& r.unready@.map_values(|x: UnreadyPodInfo| x@) == spec_unready_pods(
        ns,
        cfg.pending_grace_minutes,
        now,
        pods,
    )
    &&& r.oom_killed@.map_values(|x: OomKilledInfo| x@) == spec_oom_killed(
        ns,
        cfg.restart_grace_minutes,
        now,
        pods,
    )
}

/// Runs all six workload analyzers over pre-listed snapshots, with one
/// instant captured for the whole batch.
pub fn collect_pod_metrics(
    namespace: &str,
    cfg: &Config,
    pods: &Vec<WorkloadSnapshot>,
    metrics_items: &Vec<PodMetricsSnapshot>,
) -> (r: PodMetrics)
    ensures
        exists|now: i64|
            #[trigger] pod_metrics_at(r, namespace@, *cfg, pods@, metrics_items@, now),
{
    let now = now_epoch_seconds();
    let heavy_usage = analyze_heavy_usage_with_pods(namespace, cfg, pods, metrics_items);
    let restarts = analyze_restarts_with_pods(namespace, cfg, pods, now);
    let pending = analyze_pending_pods_with_pods(namespace, cfg, pods, now);
    let failed = analyze_failed_pods_with_pods(namespace, cfg, pods, now);
    let unready = analyze_unready_pods_with_pods(namespace, cfg, pods, now);
    let oom_killed = analyze_oom_killed_with_pods(namespace, cfg, pods, now);
    let r = PodMetrics { heavy_usage, restarts, pending, failed, unready, oom_killed };
    proof {
        assert(pod_metrics_at(r, namespace@, *cfg, pods@, metrics_items@, now));
    }
    r
}

/// The batch issue lists are exactly the analyzer results at the instant
/// `now`.
pub open spec fn job_metrics_at(
    r: JobMetrics,
    ns: Seq<char>,
    cfg: Config,
    jobs: Seq<JobSnapshot>,
    crons: Seq<CronJobSnapshot>,
    now: i64,
) -> bool {
    &&& r.failed_jobs@.map_values(|x: FailedJobInfo| x@) == spec_failed_jobs(
        ns,
        cfg.pending_grace_minutes,
        now,
        jobs,
    )
    &&& r.missed_cronjobs@.map_values(|x: MissedCronJobInfo| x@) == spec_missed_cronjobs(
        ns,
        cfg.pending_grace_minutes,
        now,
        crons,
    )
}

/// Runs the batch analyzers over pre-listed snapshots, with one captured
/// instant.
pub fn collect_job_metrics(
    namespace: &str,
    cfg: &Config,
    jobs: &Vec<JobSnapshot>,
    crons: &Vec<CronJobSnapshot>,
) -> (r: JobMetrics)
    requires
        cfg.pending_grace_minutes >= 1,
    ensures
        exists|now: i64| #[trigger] job_metrics_at(r, namespace@, *cfg, jobs@, crons@, now),
{
    let now = now_epoch_seconds();
    let failed_jobs = analyze_failed_jobs(namespace, cfg, jobs, now);
    let missed_cronjobs = analyze_missed_cronjobs(
        namespace,
        cfg.pending_grace_minutes,
        crons,
        now,
    );
    let r = JobMetrics { failed_jobs, missed_cronjobs };
    proof {
        assert(job_metrics_at(r, namespace@, *cfg, jobs@, crons@, now));
    }
    r
}

/// Runs the volume analyzer over pre-listed snapshots.
pub fn collect_volume_metrics(namespace: &str, pods: &Vec<WorkloadSnapshot>) -> (r: VolumeMetrics)
    ensures
        r.volume_issues@.map_values(|x: VolumeIssueInfo| x@) == spec_volume_issues(
            namespace@,
            pods@,
        ),
{
    VolumeMetrics { volume_issues: analyze_volume_issues(namespace, pods) }
}

/// The cluster-wide issue lists are exactly the analyzer results at the
/// instant `now`.
pub open spec fn cluster_metrics_at(
    r: ClusterMetrics,
    cfg: Config,
    nodes: Seq<NodeSnapshot>,
    metrics: Seq<NodeMetricsSnapshot>,
    counts: Seq<NodePodCount>,
    now: i64,
) -> bool {
    &&& r.problematic_nodes@.map_values(|x: ProblematicNodeInfo| x@) == spec_problematic_nodes(
        now,
        nodes,
    )
    &&& r.high_utilization_nodes@.map_values(|x: NodeUtilizationInfo| x@) == spec_node_utilization(
        cfg.threshold_percent,
        nodes,
        metrics,
        counts,
    )
}

/// Runs both node analyzers over pre-listed snapshots, with one captured
/// instant.
pub fn collect_cluster_metrics(
    cfg: &Config,
    nodes: &Vec<NodeSnapshot>,
    metrics: &Vec<NodeMetricsSnapshot>,
    counts: &Vec<NodePodCount>,
) -> (r: ClusterMetrics)
    ensures
        exists|now: i64| #[trigger] cluster_metrics_at(r, *cfg, nodes@, metrics@, counts@, now),
{
    let now = now_epoch_seconds();
    let problematic_nodes = analyze_problematic_nodes(nodes, now);
    let high_utilization_nodes = analyze_node_utilization(
        nodes,
        metrics,
        counts,
        cfg.threshold_percent,
    );
    let r = ClusterMetrics { problematic_nodes, high_utilization_nodes };
    proof {
        assert(cluster_metrics_at(r, *cfg, nodes@, metrics@, counts@, now));
    }
    r
}

} // verus!
