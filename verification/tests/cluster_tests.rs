use kube_health_reporter::calculate_node_utilization_percentages;
use kube_health_reporter::extract_job_failure_info;
use kube_health_reporter::extract_missed_runs;
use kube_health_reporter::extract_mount_failures;
use kube_health_reporter::extract_node_pod_capacity;
use kube_health_reporter::extract_problematic_conditions;
use kube_health_reporter::is_job_failed_over_grace;
use kube_health_reporter::node_condition_since;
use kube_health_reporter::ConditionSnapshot;
use kube_health_reporter::ContainerStatusSnapshot;
use kube_health_reporter::CronJobSnapshot;
use kube_health_reporter::JobSnapshot;
use kube_health_reporter::NodeMetricsSnapshot;
use kube_health_reporter::NodeSnapshot;
use kube_health_reporter::WaitingState;
use kube_health_reporter::WorkloadSnapshot;

const NOW: i64 = 1_700_000_000;
const GRACE_MINUTES: i64 = 5;

fn condition(kind: &str, status: &str) -> ConditionSnapshot {
    ConditionSnapshot {
        kind: kind.to_string(),
        status: status.to_string(),
        message: None,
        reason: None,
        last_transition_time: None,
    }
}

fn bare_node(name: &str) -> NodeSnapshot {
    NodeSnapshot {
        name: Some(name.to_string()),
        conditions: vec![],
        cpu_capacity: None,
        memory_capacity: None,
        pods_capacity: None,
    }
}

fn waiting_container(name: &str, reason: &str, message: Option<&str>) -> ContainerStatusSnapshot {
    ContainerStatusSnapshot {
        name: name.to_string(),
        restart_count: 0,
        last_terminated: None,
        waiting: Some(WaitingState {
            reason: Some(reason.to_string()),
            message: message.map(|m| m.to_string()),
        }),
    }
}

fn create_test_pod(name: &str) -> WorkloadSnapshot {
    WorkloadSnapshot {
        name: Some(name.to_string()),
        phase: None,
        start_time: None,
        creation_time: None,
        reason: None,
        message: None,
        conditions: vec![],
        container_statuses: vec![],
        containers: vec![],
    }
}

#[test]
fn test_extract_problematic_conditions() {
    let mut node = bare_node("test-node");
    node.conditions = vec![
        condition("Ready", "False"),          // NotReady
        condition("MemoryPressure", "True"),  // Problematic
        condition("DiskPressure", "False"),   // OK
    ];

    let problematic_conditions = extract_problematic_conditions(&node);
    assert_eq!(problematic_conditions.len(), 2);
    assert!(problematic_conditions.contains(&"NotReady".to_string()));
    assert!(problematic_conditions.contains(&"MemoryPressure".to_string()));
    assert!(!problematic_conditions.contains(&"DiskPressure".to_string()));

    // Test healthy node
    node.conditions = vec![condition("Ready", "True"), condition("MemoryPressure", "False")];

    let problematic_conditions = extract_problematic_conditions(&node);
    assert!(problematic_conditions.is_empty());
}

#[test]
fn test_extract_node_pod_info() {
    let mut node = bare_node("test-node");
    node.pods_capacity = Some("110".to_string());

    let pods_capacity = extract_node_pod_capacity(&node);
    assert_eq!(pods_capacity, 110); // capacity
}

#[test]
fn test_calculate_node_utilization_percentages() {
    // Create node with capacity: 4 cores = 4000m, 8 GiB of memory
    let mut node = bare_node("test-node");
    node.cpu_capacity = Some("4".to_string());
    node.memory_capacity = Some("8Gi".to_string());

    // Create metrics showing 50% usage
    let metrics = NodeMetricsSnapshot {
        name: "test-node".to_string(),
        cpu: Some("2000m".to_string()),
        memory: Some("4Gi".to_string()),
    };

    let (cpu_pct, memory_pct) = calculate_node_utilization_percentages(&node, &metrics);

    assert!(cpu_pct.is_some());
    let c = cpu_pct.unwrap();
    let cpu_value = 100.0 * (c.used as f64) / (c.capacity as f64);
    assert!((cpu_value - 50.0).abs() < 0.1);

    assert!(memory_pct.is_some());
    let m = memory_pct.unwrap();
    let mem_value = 100.0 * (m.used as f64) / (m.capacity as f64);
    assert!((mem_value - 50.0).abs() < 0.1);
}

#[test]
fn test_node_condition_since() {
    let transition_time = NOW - 1800; // thirty minutes ago

    let mut node = bare_node("test-node");
    node.conditions = vec![ConditionSnapshot {
        kind: "Ready".to_string(),
        status: "True".to_string(),
        message: None,
        reason: None,
        last_transition_time: Some(transition_time),
    }];

    let since = node_condition_since(&node);
    assert!(since.is_some());
    assert_eq!(since.unwrap(), transition_time);
}

#[test]
fn test_is_job_failed_over_grace() {
    let old_time = NOW - 600;
    let recent_time = NOW - 120;

    // Test failed job over grace period
    let mut job = JobSnapshot {
        name: Some("test-job".to_string()),
        creation_time: Some(old_time),
        failed_count: None,
        conditions: vec![ConditionSnapshot {
            kind: "Failed".to_string(),
            status: "True".to_string(),
            message: None,
            reason: None,
            last_transition_time: Some(old_time + 60),
        }],
    };

    assert!(is_job_failed_over_grace(&job, GRACE_MINUTES, NOW));

    // Test failed job within grace period
    job.creation_time = Some(recent_time);
    assert!(!is_job_failed_over_grace(&job, GRACE_MINUTES, NOW));

    // Test successful job
    job.conditions = vec![condition("Complete", "True")];
    assert!(!is_job_failed_over_grace(&job, GRACE_MINUTES, NOW));
}

#[test]
fn test_extract_job_failure_info() {
    let failure_time = NOW - 300;
    let job = JobSnapshot {
        name: Some("test-job".to_string()),
        creation_time: None,
        failed_count: None,
        conditions: vec![ConditionSnapshot {
            kind: "Failed".to_string(),
            status: "True".to_string(),
            message: None,
            reason: Some("BackoffLimitExceeded".to_string()),
            last_transition_time: Some(failure_time),
        }],
    };

    let (last_failure_time, reason) = extract_job_failure_info(&job);
    assert_eq!(last_failure_time, Some(failure_time));
    assert_eq!(reason, Some("BackoffLimitExceeded".to_string()));
}

#[test]
fn test_extract_missed_runs() {
    let last_schedule = NOW - 1200; // twenty minutes ago
    let grace_minutes = 5;

    let cronjob = CronJobSnapshot {
        name: Some("test-cronjob".to_string()),
        last_schedule_time: Some(last_schedule),
    };

    let missed_info = extract_missed_runs(&cronjob, grace_minutes, NOW);
    assert!(missed_info.is_some());
    let (schedule_time, missed_runs) = missed_info.unwrap();
    assert_eq!(schedule_time, last_schedule);
    assert!(missed_runs > 0);

    // Test recent schedule (no missed runs)
    let recent_schedule = NOW - 120;
    let cronjob = CronJobSnapshot {
        name: Some("test-cronjob".to_string()),
        last_schedule_time: Some(recent_schedule),
    };

    let missed_info = extract_missed_runs(&cronjob, grace_minutes, NOW);
    assert!(missed_info.is_none());
}

#[test]
fn test_extract_mount_failures() {
    let mut pod = create_test_pod("test-pod");

    // Test with mount failure
    pod.container_statuses = vec![waiting_container(
        "test-container",
        "VolumeMount",
        Some("Failed to mount volume"),
    )];

    let mount_failures = extract_mount_failures(&pod);
    assert!(mount_failures.is_some());
    let failures = mount_failures.unwrap();
    assert_eq!(failures.len(), 1);
    assert_eq!(failures[0].0, "container-test-container");
    assert_eq!(failures[0].1, "Failed to mount volume");

    // Test with no mount failures
    pod.container_statuses = vec![waiting_container(
        "test-container",
        "ImagePullBackOff",
        Some("Failed to pull image"),
    )];

    let mount_failures = extract_mount_failures(&pod);
    assert!(mount_failures.is_none());
}

#[test]
fn test_extract_mount_failures_multiple_containers() {
    let mut pod = create_test_pod("test-pod");

    // Test with multiple containers, some with mount failures
    pod.container_statuses = vec![
        waiting_container("container1", "VolumeMount", Some("Mount failed for volume1")),
        waiting_container("container2", "CreateContainerConfigError", Some("Config error")),
        waiting_container("container3", "FailedMount", Some("Unable to attach volume")),
    ];

    let mount_failures = extract_mount_failures(&pod);
    assert!(mount_failures.is_some());
    let failures = mount_failures.unwrap();
    assert_eq!(failures.len(), 2);

    // Check that we got the mount-related failures
    assert!(failures.iter().any(|(name, _)| name == "container-container1"));
    assert!(failures.iter().any(|(name, _)| name == "container-container3"));
    assert!(!failures.iter().any(|(name, _)| name == "container-container2"));
}
