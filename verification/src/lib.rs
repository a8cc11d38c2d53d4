//! Cluster health analysis engine.
//!
//! Converts textual resource quantities into normalized integer units,
//! derives utilization percentages from usage/request pairs, classifies
//! workload, node, job and volume snapshots into typed issue records using
//! grace-period and threshold policies, and aggregates the results into a
//! single report.

use vstd::prelude::*;

pub mod base;
pub mod collector;
pub mod config;
pub mod jobs;
pub mod nodes;
pub mod numtext;
pub mod parsing;
pub mod pods;
pub mod report;
pub mod text;
pub mod types;
pub mod volumes;

pub use base::build_usage_map_from_http;
pub use base::pod_status_time;
pub use base::usage_for;
pub use collector::collect_cluster_metrics;
pub use collector::collect_job_metrics;
pub use collector::collect_pod_metrics;
pub use collector::collect_volume_metrics;
pub use config::ConfigError;
pub use config::EnvironmentProvider;
pub use config::MockEnvironment;
pub use config::load_config_with_env;
pub use config::parse_namespaces;
pub use jobs::analyze_failed_jobs;
pub use jobs::analyze_missed_cronjobs;
pub use jobs::extract_job_failure_info;
pub use jobs::extract_missed_runs;
pub use jobs::is_job_failed_over_grace;
pub use nodes::NodeThresholdReason;
pub use nodes::analyze_node_utilization;
pub use nodes::analyze_problematic_nodes;
pub use nodes::calculate_node_utilization_percentages;
pub use nodes::extract_node_pod_capacity;
pub use nodes::extract_problematic_conditions;
pub use nodes::node_condition_since;
pub use nodes::node_threshold_reason;
pub use parsing::any_exceeds;
pub use parsing::compute_utilization_percentages;
pub use parsing::format_as_millicore;
pub use parsing::parse_cpu_to_millicores;
pub use parsing::parse_memory_to_bytes;
pub use pods::analyze_failed_pods_with_pods;
pub use pods::analyze_heavy_usage_with_pods;
pub use pods::analyze_oom_killed_with_pods;
pub use pods::analyze_pending_pods_with_pods;
pub use pods::analyze_restarts_with_pods;
pub use pods::analyze_unready_pods_with_pods;
pub use pods::extract_failed_conditions;
pub use pods::extract_oom_info;
pub use pods::extract_pod_failure_info;
pub use pods::extract_restart_info;
pub use pods::is_failed_over_grace;
pub use pods::is_pending_over_grace;
pub use pods::is_unready_over_grace;
pub use pods::sum_requests;
pub use report::AllNamespaceJobMetrics;
pub use report::AllNamespacePodMetrics;
pub use report::AllNamespaceVolumeMetrics;
pub use report::ClusterMetrics;
pub use report::HealthReport;
pub use report::JobMetrics;
pub use report::PodMetrics;
pub use report::ReportSummary;
pub use report::VolumeMetrics;
pub use text::str_contains;
pub use text::str_eq;
pub use types::Config;
pub use types::ConditionSnapshot;
pub use types::ContainerMetrics;
pub use types::ContainerSpecSnapshot;
pub use types::ContainerStatusSnapshot;
pub use types::CronJobSnapshot;
pub use types::FailedJobInfo;
pub use types::FailedPodInfo;
pub use types::HeavyUsagePod;
pub use types::JobSnapshot;
pub use types::MissedCronJobInfo;
pub use types::NodeMetricsSnapshot;
pub use types::NodePodCount;
pub use types::NodeSnapshot;
pub use types::NodeUtilizationInfo;
pub use types::OomKilledInfo;
pub use types::PendingPodInfo;
pub use types::Percentage;
pub use types::PodMetricsSnapshot;
pub use types::PodRequestTotals;
pub use types::PodUsageTotals;
pub use types::ProblematicNodeInfo;
pub use types::RestartEventInfo;
pub use types::TerminatedState;
pub use types::Threshold;
pub use types::UnreadyPodInfo;
pub use types::VolumeIssueInfo;
pub use types::VolumeIssueType;
pub use types::WaitingState;
pub use types::WorkloadSnapshot;
pub use volumes::analyze_volume_issues;
pub use volumes::extract_mount_failures;

verus! {

} // verus!
