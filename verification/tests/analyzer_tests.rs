use kube_health_reporter::analyze_failed_jobs;
use kube_health_reporter::analyze_failed_pods_with_pods;
use kube_health_reporter::analyze_missed_cronjobs;
use kube_health_reporter::analyze_node_utilization;
use kube_health_reporter::analyze_oom_killed_with_pods;
use kube_health_reporter::analyze_problematic_nodes;
use kube_health_reporter::analyze_restarts_with_pods;
use kube_health_reporter::analyze_unready_pods_with_pods;
use kube_health_reporter::analyze_volume_issues;
use kube_health_reporter::build_usage_map_from_http;
use kube_health_reporter::node_threshold_reason;
use kube_health_reporter::pod_status_time;
use kube_health_reporter::sum_requests;
use kube_health_reporter::usage_for;
use kube_health_reporter::Config;
use kube_health_reporter::ConditionSnapshot;
use kube_health_reporter::ContainerMetrics;
use kube_health_reporter::ContainerSpecSnapshot;
use kube_health_reporter::ContainerStatusSnapshot;
use kube_health_reporter::CronJobSnapshot;
use kube_health_reporter::JobSnapshot;
use kube_health_reporter::NodeMetricsSnapshot;
use kube_health_reporter::NodePodCount;
use kube_health_reporter::NodeSnapshot;
use kube_health_reporter::NodeThresholdReason;
use kube_health_reporter::Percentage;
use kube_health_reporter::PodMetricsSnapshot;
use kube_health_reporter::TerminatedState;
use kube_health_reporter::Threshold;
use kube_health_reporter::WaitingState;
use kube_health_reporter::WorkloadSnapshot;

const NOW: i64 = 1_700_000_000;

fn config() -> Config {
    Config {
        namespaces: vec!["default".to_string()],
        threshold_percent: Threshold::from_percent(85),
        slack_webhook_url: "https://example.invalid/hook".to_string(),
        restart_grace_minutes: 5,
        pending_grace_minutes: 5,
        cluster_name: None,
        datacenter_name: None,
        fail_if_no_metrics: false,
    }
}

fn bare_pod(name: &str, phase: &str, start: i64) -> WorkloadSnapshot {
    WorkloadSnapshot {
        name: Some(name.to_string()),
        phase: Some(phase.to_string()),
        start_time: Some(start),
        creation_time: Some(start),
        reason: None,
        message: None,
        conditions: vec![],
        container_statuses: vec![],
        containers: vec![],
    }
}

#[test]
fn test_analyze_restarts_terminated_and_waiting() {
    let cfg = config();
    let start = NOW - 3600; // started an hour ago; cutoff is start + 5m

    // One container restarted after the cutoff, one before it, and one
    // crash-looping with no timestamp while now is already past the cutoff.
    let mut pod = bare_pod("pod-a", "Running", start);
    pod.container_statuses = vec![
        ContainerStatusSnapshot {
            name: "late".to_string(),
            restart_count: 2,
            last_terminated: Some(TerminatedState {
                finished_at: Some(start + 600),
                reason: Some("Error".to_string()),
                message: Some("boom".to_string()),
                exit_code: 1,
            }),
            waiting: None,
        },
        ContainerStatusSnapshot {
            name: "early".to_string(),
            restart_count: 1,
            last_terminated: Some(TerminatedState {
                finished_at: Some(start + 100),
                reason: Some("Error".to_string()),
                message: None,
                exit_code: 1,
            }),
            waiting: None,
        },
        ContainerStatusSnapshot {
            name: "looping".to_string(),
            restart_count: 7,
            last_terminated: None,
            waiting: Some(WaitingState {
                reason: Some("CrashLoopBackOff".to_string()),
                message: Some("back-off 5m".to_string()),
            }),
        },
        ContainerStatusSnapshot {
            name: "stable".to_string(),
            restart_count: 0,
            last_terminated: None,
            waiting: None,
        },
    ];

    let restarts = analyze_restarts_with_pods("default", &cfg, &vec![pod], NOW);
    assert_eq!(restarts.len(), 2);

    assert_eq!(restarts[0].container, "late".to_string());
    assert_eq!(restarts[0].last_restart_time, Some(start + 600));
    assert_eq!(restarts[0].reason, Some("Error".to_string()));
    assert_eq!(restarts[0].message, Some("boom".to_string()));
    assert_eq!(restarts[0].exit_code, Some(1));

    assert_eq!(restarts[1].container, "looping".to_string());
    assert_eq!(restarts[1].last_restart_time, None);
    assert_eq!(restarts[1].reason, Some("CrashLoopBackOff".to_string()));
    assert_eq!(restarts[1].exit_code, None);
}

#[test]
fn test_analyze_oom_killed_end_to_end() {
    let cfg = config();
    let start = NOW - 3600;

    let mut pod = bare_pod("pod-a", "Running", start);
    pod.container_statuses = vec![
        ContainerStatusSnapshot {
            name: "oom".to_string(),
            restart_count: 3,
            last_terminated: Some(TerminatedState {
                finished_at: Some(NOW - 60),
                reason: Some("OOMKilled".to_string()),
                message: None,
                exit_code: 137,
            }),
            waiting: None,
        },
        ContainerStatusSnapshot {
            name: "crashed".to_string(),
            restart_count: 3,
            last_terminated: Some(TerminatedState {
                finished_at: Some(NOW - 60),
                reason: Some("Error".to_string()),
                message: None,
                exit_code: 1,
            }),
            waiting: None,
        },
    ];

    let oom = analyze_oom_killed_with_pods("default", &cfg, &vec![pod], NOW);
    assert_eq!(oom.len(), 1);
    assert_eq!(oom[0].container, "oom".to_string());
    assert_eq!(oom[0].last_oom_time, Some(NOW - 60));
    assert_eq!(oom[0].restart_count, 3);
}

#[test]
fn test_analyze_unready_pods_end_to_end() {
    let cfg = config();
    let mut pod = bare_pod("pod-a", "Running", NOW - 3600);
    pod.conditions = vec![
        ConditionSnapshot {
            kind: "Ready".to_string(),
            status: "False".to_string(),
            message: Some("containers not ready".to_string()),
            reason: None,
            last_transition_time: None,
        },
        ConditionSnapshot {
            kind: "ContainersReady".to_string(),
            status: "False".to_string(),
            message: None,
            reason: None,
            last_transition_time: None,
        },
    ];

    let unready = analyze_unready_pods_with_pods("default", &cfg, &vec![pod], NOW);
    assert_eq!(unready.len(), 1);
    assert_eq!(unready[0].duration_minutes, 60);
    assert_eq!(
        unready[0].failed_conditions,
        vec!["Ready: containers not ready".to_string(), "ContainersReady: Unknown".to_string()]
    );
}

#[test]
fn test_analyze_failed_pods_end_to_end() {
    let cfg = config();
    let mut pod = bare_pod("pod-a", "Failed", NOW - 900);
    pod.reason = Some("Evicted".to_string());
    pod.message = Some("node was low on memory".to_string());
    let nameless = WorkloadSnapshot { name: None, ..bare_pod("x", "Failed", NOW - 900) };

    let failed = analyze_failed_pods_with_pods("default", &cfg, &vec![pod, nameless], NOW);
    assert_eq!(failed.len(), 1);
    assert_eq!(failed[0].namespace, "default".to_string());
    assert_eq!(failed[0].since, NOW - 900);
    assert_eq!(failed[0].duration_minutes, 15);
    assert_eq!(failed[0].reason, Some("Evicted".to_string()));
    assert_eq!(failed[0].message, Some("node was low on memory".to_string()));
}

#[test]
fn test_analyze_problematic_nodes_end_to_end() {
    let bad = NodeSnapshot {
        name: Some("node-a".to_string()),
        conditions: vec![
            ConditionSnapshot {
                kind: "Ready".to_string(),
                status: "Unknown".to_string(),
                message: None,
                reason: None,
                last_transition_time: Some(NOW - 1800),
            },
            ConditionSnapshot {
                kind: "DiskPressure".to_string(),
                status: "True".to_string(),
                message: None,
                reason: None,
                last_transition_time: None,
            },
        ],
        cpu_capacity: None,
        memory_capacity: None,
        pods_capacity: None,
    };
    let healthy = NodeSnapshot {
        name: Some("node-b".to_string()),
        conditions: vec![ConditionSnapshot {
            kind: "Ready".to_string(),
            status: "True".to_string(),
            message: None,
            reason: None,
            last_transition_time: None,
        }],
        cpu_capacity: None,
        memory_capacity: None,
        pods_capacity: None,
    };

    let reported = analyze_problematic_nodes(&vec![bad, healthy], NOW);
    assert_eq!(reported.len(), 1);
    assert_eq!(reported[0].name, "node-a".to_string());
    assert_eq!(reported[0].conditions, vec!["NotReady".to_string(), "DiskPressure".to_string()]);
    assert_eq!(reported[0].since, NOW - 1800);
}

#[test]
fn test_analyze_node_utilization_end_to_end() {
    let node = |name: &str| NodeSnapshot {
        name: Some(name.to_string()),
        conditions: vec![],
        cpu_capacity: Some("4".to_string()),
        memory_capacity: Some("8Gi".to_string()),
        pods_capacity: Some("10".to_string()),
    };
    let metrics = vec![
        NodeMetricsSnapshot {
            name: "hot".to_string(),
            cpu: Some("3800m".to_string()), // 95% of 4 cores
            memory: Some("1Gi".to_string()),
        },
        NodeMetricsSnapshot {
            name: "cool".to_string(),
            cpu: Some("1000m".to_string()),
            memory: Some("1Gi".to_string()),
        },
        NodeMetricsSnapshot {
            name: "crowded".to_string(),
            cpu: Some("1000m".to_string()),
            memory: Some("1Gi".to_string()),
        },
    ];
    let counts = vec![
        NodePodCount { name: "hot".to_string(), count: 1 },
        NodePodCount { name: "cool".to_string(), count: 1 },
        NodePodCount { name: "crowded".to_string(), count: 9 }, // 90% of 10
    ];
    let nodes = vec![node("hot"), node("cool"), node("crowded")];

    let reported = analyze_node_utilization(&nodes, &metrics, &counts, Threshold::from_percent(85));
    assert_eq!(reported.len(), 2);
    assert_eq!(reported[0].name, "hot".to_string());
    assert_eq!(reported[0].cpu_pct, Some(Percentage::new(3800, 4000)));
    assert_eq!(reported[1].name, "crowded".to_string());
    assert_eq!(reported[1].pods_count, 9);
    assert_eq!(reported[1].pods_capacity, 10);
}

#[test]
fn test_node_threshold_reason_ordering() {
    let t = Threshold::from_percent(85);
    let hot = Some(Percentage::new(90, 100));
    let cool = Some(Percentage::new(10, 100));

    assert_eq!(node_threshold_reason(hot, hot, 9, 10, t), Some(NodeThresholdReason::Cpu));
    assert_eq!(node_threshold_reason(cool, hot, 9, 10, t), Some(NodeThresholdReason::Memory));
    assert_eq!(node_threshold_reason(cool, cool, 9, 10, t), Some(NodeThresholdReason::Density));
    assert_eq!(node_threshold_reason(cool, cool, 8, 10, t), None);
    // Density needs a positive capacity.
    assert_eq!(node_threshold_reason(None, None, 9, 0, t), None);
}

#[test]
fn test_analyze_failed_jobs_end_to_end() {
    let cfg = config();
    let job = JobSnapshot {
        name: Some("batch-a".to_string()),
        creation_time: Some(NOW - 3600),
        failed_count: Some(3),
        conditions: vec![ConditionSnapshot {
            kind: "Failed".to_string(),
            status: "True".to_string(),
            message: None,
            reason: Some("BackoffLimitExceeded".to_string()),
            last_transition_time: Some(NOW - 1200),
        }],
    };
    let fine = JobSnapshot {
        name: Some("batch-b".to_string()),
        creation_time: Some(NOW - 3600),
        failed_count: None,
        conditions: vec![],
    };

    let failed = analyze_failed_jobs("default", &cfg, &vec![job, fine], NOW);
    assert_eq!(failed.len(), 1);
    assert_eq!(failed[0].job, "batch-a".to_string());
    assert_eq!(failed[0].failed_pods, 3);
    assert_eq!(failed[0].last_failure_time, Some(NOW - 1200));
    assert_eq!(failed[0].reason, Some("BackoffLimitExceeded".to_string()));
}

#[test]
fn test_analyze_missed_cronjobs_end_to_end() {
    let crons = vec![
        CronJobSnapshot { name: Some("late".to_string()), last_schedule_time: Some(NOW - 1200) },
        CronJobSnapshot { name: Some("fresh".to_string()), last_schedule_time: Some(NOW - 120) },
        CronJobSnapshot { name: Some("never".to_string()), last_schedule_time: None },
    ];
    let missed = analyze_missed_cronjobs("default", 5, &crons, NOW);
    assert_eq!(missed.len(), 1);
    assert_eq!(missed[0].cronjob, "late".to_string());
    assert_eq!(missed[0].last_schedule_time, NOW - 1200);
    assert_eq!(missed[0].missed_runs, 4);
}

#[test]
fn test_analyze_volume_issues_end_to_end() {
    let mut pod = bare_pod("pod-a", "Pending", NOW - 600);
    pod.container_statuses = vec![ContainerStatusSnapshot {
        name: "data".to_string(),
        restart_count: 0,
        last_terminated: None,
        waiting: Some(WaitingState {
            reason: Some("FailedMount".to_string()),
            message: None, // the reason doubles as the message
        }),
    }];

    let issues = analyze_volume_issues("default", &vec![pod]);
    assert_eq!(issues.len(), 1);
    assert_eq!(issues[0].volume_name, "container-data".to_string());
    assert_eq!(issues[0].message, "FailedMount".to_string());
}

#[test]
fn test_build_usage_map_last_entry_wins() {
    let items = vec![
        PodMetricsSnapshot {
            name: "pod-a".to_string(),
            containers: vec![ContainerMetrics {
                name: "c".to_string(),
                usage: vec![("cpu".to_string(), "100m".to_string())],
            }],
        },
        PodMetricsSnapshot {
            name: "".to_string(), // no name: skipped
            containers: vec![],
        },
        PodMetricsSnapshot {
            name: "pod-a".to_string(),
            containers: vec![
                ContainerMetrics {
                    name: "c1".to_string(),
                    usage: vec![
                        ("cpu".to_string(), "200m".to_string()),
                        ("memory".to_string(), "1Ki".to_string()),
                    ],
                },
                ContainerMetrics {
                    name: "c2".to_string(),
                    usage: vec![
                        ("cpu".to_string(), "50m".to_string()),
                        ("memory".to_string(), "junk".to_string()), // ignored
                    ],
                },
            ],
        },
    ];
    let map = build_usage_map_from_http(&items);
    assert_eq!(map.len(), 2);

    let totals = usage_for(&map, &"pod-a".to_string()).unwrap();
    assert_eq!(totals.cpu_millicores, 250); // later entry replaced the earlier
    assert_eq!(totals.memory_bytes, 1024);

    assert!(usage_for(&map, &"pod-b".to_string()).is_none());
}

#[test]
fn test_sum_requests_tracks_presence_per_resource() {
    let mut pod = bare_pod("pod-a", "Running", NOW);
    pod.containers = vec![
        ContainerSpecSnapshot {
            cpu_request: Some("250m".to_string()),
            memory_request: None,
        },
        ContainerSpecSnapshot {
            cpu_request: Some("0.75".to_string()),
            memory_request: Some("not-a-quantity".to_string()), // unparseable: no value
        },
    ];
    let totals = sum_requests(&pod);
    assert_eq!(totals.cpu_millicores, Some(1000));
    assert_eq!(totals.memory_bytes, None); // absent stays absent, never zero

    pod.containers = vec![];
    let totals = sum_requests(&pod);
    assert_eq!(totals.cpu_millicores, None);
    assert_eq!(totals.memory_bytes, None);
}

#[test]
fn test_pod_status_time_fallback() {
    let mut pod = bare_pod("pod-a", "Running", NOW - 100);
    pod.start_time = Some(NOW - 100);
    pod.creation_time = Some(NOW - 200);
    assert_eq!(pod_status_time(&pod), Some(NOW - 100)); // start time preferred

    pod.start_time = None;
    assert_eq!(pod_status_time(&pod), Some(NOW - 200)); // creation time fallback

    pod.creation_time = None;
    assert_eq!(pod_status_time(&pod), None);
}
