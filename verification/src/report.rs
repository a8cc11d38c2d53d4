//! Report aggregation: per-scope analyzer outputs merged into one report,
//! and the derived summary.
//!
//! The report starts empty, grows only through the append operations, and
//! the summary is derived from it alone: its total is zero exactly when the
//! report has no issues.

use vstd::prelude::*;
use vstd::std_specs::vec::axiom_spec_len;

use crate::types::Config;
use crate::types::FailedJobInfo;
use crate::types::FailedPodInfo;
use crate::types::HeavyUsagePod;
use crate::types::MissedCronJobInfo;
use crate::types::NodeUtilizationInfo;
use crate::types::OomKilledInfo;
use crate::types::PendingPodInfo;
use crate::types::ProblematicNodeInfo;
use crate::types::RestartEventInfo;
use crate::types::UnreadyPodInfo;
use crate::types::VolumeIssueInfo;

verus! {

/// Workload analyzer outputs of one scope.
pub struct PodMetrics {
    pub heavy_usage: Vec<HeavyUsagePod>,
    pub restarts: Vec<RestartEventInfo>,
    pub pending: Vec<PendingPodInfo>,
    pub failed: Vec<FailedPodInfo>,
    pub unready: Vec<UnreadyPodInfo>,
    pub oom_killed: Vec<OomKilledInfo>,
}

/// Batch analyzer outputs of one scope.
pub struct JobMetrics {
    pub failed_jobs: Vec<FailedJobInfo>,
    pub missed_cronjobs: Vec<MissedCronJobInfo>,
}

/// Volume analyzer outputs of one scope.
pub struct VolumeMetrics {
    pub volume_issues: Vec<VolumeIssueInfo>,
}

/// Cluster-wide analyzer outputs.
pub struct ClusterMetrics {
    pub problematic_nodes: Vec<ProblematicNodeInfo>,
    pub high_utilization_nodes: Vec<NodeUtilizationInfo>,
}

/// Workload issues accumulated across all scopes.
pub struct AllNamespacePodMetrics {
    pub heavy_usage: Vec<HeavyUsagePod>,
    pub restarts: Vec<RestartEventInfo>,
    pub pending: Vec<PendingPodInfo>,
    pub failed: Vec<FailedPodInfo>,
    pub unready: Vec<UnreadyPodInfo>,
    pub oom_killed: Vec<OomKilledInfo>,
}

/// Batch issues accumulated across all scopes.
pub struct AllNamespaceJobMetrics {
    pub failed_jobs: Vec<FailedJobInfo>,
    pub missed_cronjobs: Vec<MissedCronJobInfo>,
}

/// Volume issues accumulated across all scopes.
pub struct AllNamespaceVolumeMetrics {
    pub volume_issues: Vec<VolumeIssueInfo>,
}

/// The aggregated health report: every issue list, across all scopes.
pub struct HealthReport {
    pub config: Config,
    pub pod_metrics: AllNamespacePodMetrics,
    pub job_metrics: AllNamespaceJobMetrics,
    pub volume_metrics: AllNamespaceVolumeMetrics,
    pub cluster_metrics: ClusterMetrics,
}

/// Per-type issue counts and their sum.
pub struct ReportSummary {
    pub heavy_usage_count: usize,
    pub restart_count: usize,
    pub pending_count: usize,
    pub failed_pod_count: usize,
    pub unready_count: usize,
    pub oom_killed_count: usize,
    pub failed_job_count: usize,
    pub missed_cronjob_count: usize,
    pub volume_issue_count: usize,
    pub problematic_node_count: usize,
    pub high_util_node_count: usize,
}

impl ReportSummary {
    /// The sum of all per-type counts.
    pub open spec fn spec_total(&self) -> int {
        self.heavy_usage_count + self.restart_count + self.pending_count + self.failed_pod_count
            + self.unready_count + self.oom_killed_count + self.failed_job_count
            + self.missed_cronjob_count + self.volume_issue_count + self.problematic_node_count
            + self.high_util_node_count
    }

    /// The total number of issues in the summary.
    pub fn total_issues(&self) -> (r: usize)
        requires
            self.spec_total() <= usize::MAX,
        ensures
            r == self.spec_total(),
    {
        self.heavy_usage_count + self.restart_count + self.pending_count + self.failed_pod_count
            + self.unready_count + self.oom_killed_count + self.failed_job_count
            + self.missed_cronjob_count + self.volume_issue_count + self.problematic_node_count
            + self.high_util_node_count
    }

    /// Whether any issue was counted.
    pub fn has_issues(&self) -> (r: bool)
        ensures
            r == (self.spec_total() > 0),
    {
        self.heavy_usage_count > 0 || self.restart_count > 0 || self.pending_count > 0
            || self.failed_pod_count > 0 || self.unready_count > 0 || self.oom_killed_count > 0
            || self.failed_job_count > 0 || self.missed_cronjob_count > 0
            || self.volume_issue_count > 0 || self.problematic_node_count > 0
            || self.high_util_node_count > 0
    }
}

impl HealthReport {
    /// The report holds no issue of any type.
    pub open spec fn spec_has_issues(&self) -> bool {
        self.pod_metrics.heavy_usage@.len() > 0 || self.pod_metrics.restarts@.len() > 0
            || self.pod_metrics.pending@.len() > 0 || self.pod_metrics.failed@.len() > 0
            || self.pod_metrics.unready@.len() > 0 || self.pod_metrics.oom_killed@.len() > 0
            || self.job_metrics.failed_jobs@.len() > 0 || self.job_metrics.missed_cronjobs@.len()
            > 0 || self.volume_metrics.volume_issues@.len() > 0
            || self.cluster_metrics.problematic_nodes@.len() > 0
            || self.cluster_metrics.high_utilization_nodes@.len() > 0
    }

    /// The summary derived from the report: one count per issue type.
    pub open spec fn spec_summary(&self) -> ReportSummary {
        ReportSummary {
            heavy_usage_count: self.pod_metrics.heavy_usage@.len() as usize,
            restart_count: self.pod_metrics.restarts@.len() as usize,
            pending_count: self.pod_metrics.pending@.len() as usize,
            failed_pod_count: self.pod_metrics.failed@.len() as usize,
            unready_count: self.pod_metrics.unready@.len() as usize,
            oom_killed_count: self.pod_metrics.oom_killed@.len() as usize,
            failed_job_count: self.job_metrics.failed_jobs@.len() as usize,
            missed_cronjob_count: self.job_metrics.missed_cronjobs@.len() as usize,
            volume_issue_count: self.volume_metrics.volume_issues@.len() as usize,
            problematic_node_count: self.cluster_metrics.problematic_nodes@.len() as usize,
            high_util_node_count: self.cluster_metrics.high_utilization_nodes@.len() as usize,
        }
    }

    /// An empty report for the given run configuration.
    pub fn new(config: Config) -> (r: HealthReport)
        ensures
            r.config == config,
            !r.spec_has_issues(),
            r.spec_summary().spec_total() == 0,
    {
        HealthReport {
            config,
            pod_metrics: AllNamespacePodMetrics {
                heavy_usage: Vec::new(),
                restarts: Vec::new(),
                pending: Vec::new(),
                failed: Vec::new(),
                unready: Vec::new(),
                oom_killed: Vec::new(),
            },
            job_metrics: AllNamespaceJobMetrics {
                failed_jobs: Vec::new(),
                missed_cronjobs: Vec::new(),
            },
            volume_metrics: AllNamespaceVolumeMetrics { volume_issues: Vec::new() },
            cluster_metrics: ClusterMetrics {
                problematic_nodes: Vec::new(),
                high_utilization_nodes: Vec::new(),
            },
        }
    }

    /// Appends one scope's workload issues.
    pub fn add_pod_metrics(&mut self, metrics: PodMetrics)
        ensures
            final(self).pod_metrics.heavy_usage@ == old(self).pod_metrics.heavy_usage@
                + metrics.heavy_usage@,
            final(self).pod_metrics.restarts@ == old(self).pod_metrics.restarts@
                + metrics.restarts@,
            final(self).pod_metrics.pending@ == old(self).pod_metrics.pending@ + metrics.pending@,
            final(self).pod_metrics.failed@ == old(self).pod_metrics.failed@ + metrics.failed@,
            final(self).pod_metrics.unready@ == old(self).pod_metrics.unready@ + metrics.unready@,
            final(self).pod_metrics.oom_killed@ == old(self).pod_metrics.oom_killed@
                + metrics.oom_killed@,
            final(self).config == old(self).config,
            final(self).job_metrics == old(self).job_metrics,
            final(self).volume_metrics == old(self).volume_metrics,
            final(self).cluster_metrics == old(self).cluster_metrics,
    {
        let mut m = metrics;
        self.pod_metrics.heavy_usage.append(&mut m.heavy_usage);
        self.pod_metrics.restarts.append(&mut m.restarts);
        self.pod_metrics.pending.append(&mut m.pending);
        self.pod_metrics.failed.append(&mut m.failed);
        self.pod_metrics.unready.append(&mut m.unready);
        self.pod_metrics.oom_killed.append(&mut m.oom_killed);
    }

    /// Appends one scope's batch issues.
    pub fn add_job_metrics(&mut self, metrics: JobMetrics)
        ensures
            final(self).job_metrics.failed_jobs@ == old(self).job_metrics.failed_jobs@
                + metrics.failed_jobs@,
            final(self).job_metrics.missed_cronjobs@ == old(self).job_metrics.missed_cronjobs@
                + metrics.missed_cronjobs@,
            final(self).config == old(self).config,
            final(self).pod_metrics == old(self).pod_metrics,
            final(self).volume_metrics == old(self).volume_metrics,
            final(self).cluster_metrics == old(self).cluster_metrics,
    {
        let mut m = metrics;
        self.job_metrics.failed_jobs.append(&mut m.failed_jobs);
        self.job_metrics.missed_cronjobs.append(&mut m.missed_cronjobs);
    }

    /// Appends one scope's volume issues.
    pub fn add_volume_metrics(&mut self, metrics: VolumeMetrics)
        ensures
            final(self).volume_metrics.volume_issues@ == old(self).volume_metrics.volume_issues@
                + metrics.volume_issues@,
            final(self).config == old(self).config,
            final(self).pod_metrics == old(self).pod_metrics,
            final(self).job_metrics == old(self).job_metrics,
            final(self).cluster_metrics == old(self).cluster_metrics,
    {
        let mut m = metrics;
        self.volume_metrics.volume_issues.append(&mut m.volume_issues);
    }

    /// Replaces the cluster-wide results.
    pub fn set_cluster_metrics(&mut self, metrics: ClusterMetrics)
        ensures
            final(self).cluster_metrics == metrics,
            final(self).config == old(self).config,
            final(self).pod_metrics == old(self).pod_metrics,
            final(self).job_metrics == old(self).job_metrics,
            final(self).volume_metrics == old(self).volume_metrics,
    {
        self.cluster_metrics = metrics;
    }

    /// Whether the report holds any issue.
    pub fn has_issues(&self) -> (r: bool)
        ensures
            r == self.spec_has_issues(),
    {
        self.pod_metrics.heavy_usage.len() > 0 || self.pod_metrics.restarts.len() > 0
            || self.pod_metrics.pending.len() > 0 || self.pod_metrics.failed.len() > 0
            || self.pod_metrics.unready.len() > 0 || self.pod_metrics.oom_killed.len() > 0
            || self.job_metrics.failed_jobs.len() > 0 || self.job_metrics.missed_cronjobs.len()
            > 0 || self.volume_metrics.volume_issues.len() > 0
            || self.cluster_metrics.problematic_nodes.len() > 0
            || self.cluster_metrics.high_utilization_nodes.len() > 0
    }

    /// The per-type counts of the report.
    pub fn summary(&self) -> (r: ReportSummary)
        ensures
            r == self.spec_summary(),
    {
        ReportSummary {
            heavy_usage_count: self.pod_metrics.heavy_usage.len(),
            restart_count: self.pod_metrics.restarts.len(),
            pending_count: self.pod_metrics.pending.len(),
            failed_pod_count: self.pod_metrics.failed.len(),
            unready_count: self.pod_metrics.unready.len(),
            oom_killed_count: self.pod_metrics.oom_killed.len(),
            failed_job_count: self.job_metrics.failed_jobs.len(),
            missed_cronjob_count: self.job_metrics.missed_cronjobs.len(),
            volume_issue_count: self.volume_metrics.volume_issues.len(),
            problematic_node_count: self.cluster_metrics.problematic_nodes.len(),
            high_util_node_count: self.cluster_metrics.high_utilization_nodes.len(),
        }
    }
}

/// However the report was built, its summary's total is zero exactly when
/// the report has no issues: the two views never disagree.
pub proof fn lemma_summary_consistent(r: HealthReport)
    ensures
        (r.spec_summary().spec_total() == 0) <==> !r.spec_has_issues(),
{
    broadcast use vstd::std_specs::vec::axiom_spec_len;

    assert(r.pod_metrics.heavy_usage@.len() <= usize::MAX) by {
        axiom_spec_len(&r.pod_metrics.heavy_usage);
    }
    axiom_spec_len(&r.pod_metrics.restarts);
    axiom_spec_len(&r.pod_metrics.pending);
    axiom_spec_len(&r.pod_metrics.failed);
    axiom_spec_len(&r.pod_metrics.unready);
    axiom_spec_len(&r.pod_metrics.oom_killed);
    axiom_spec_len(&r.job_metrics.failed_jobs);
    axiom_spec_len(&r.job_metrics.missed_cronjobs);
    axiom_spec_len(&r.volume_metrics.volume_issues);
    axiom_spec_len(&r.cluster_metrics.problematic_nodes);
    axiom_spec_len(&r.cluster_metrics.high_utilization_nodes);
}

} // verus!
