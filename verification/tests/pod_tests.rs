use kube_health_reporter::extract_failed_conditions;
use kube_health_reporter::extract_oom_info;
use kube_health_reporter::extract_pod_failure_info;
use kube_health_reporter::is_failed_over_grace;
use kube_health_reporter::is_unready_over_grace;
use kube_health_reporter::ConditionSnapshot;
use kube_health_reporter::ContainerStatusSnapshot;
use kube_health_reporter::TerminatedState;
use kube_health_reporter::WorkloadSnapshot;

const NOW: i64 = 1_700_000_000;
const GRACE_MINUTES: i64 = 5;

fn create_test_pod(name: &str, phase: &str, t: i64) -> WorkloadSnapshot {
    WorkloadSnapshot {
        name: Some(name.to_string()),
        phase: Some(phase.to_string()),
        start_time: Some(t),
        creation_time: Some(t),
        reason: None,
        message: None,
        conditions: vec![],
        container_statuses: vec![],
        containers: vec![],
    }
}

fn condition(kind: &str, status: &str, message: Option<&str>) -> ConditionSnapshot {
    ConditionSnapshot {
        kind: kind.to_string(),
        status: status.to_string(),
        message: message.map(|m| m.to_string()),
        reason: None,
        last_transition_time: None,
    }
}

#[test]
fn test_is_failed_over_grace() {
    let old_time = NOW - 600; // ten minutes ago
    let recent_time = NOW - 120; // two minutes ago

    // Test failed pod over grace period
    let mut failed_pod = create_test_pod("failed-pod", "Failed", old_time);
    assert!(is_failed_over_grace(&failed_pod, GRACE_MINUTES, NOW));

    // Test failed pod within grace period
    failed_pod.creation_time = Some(recent_time);
    failed_pod.start_time = Some(recent_time);
    assert!(!is_failed_over_grace(&failed_pod, GRACE_MINUTES, NOW));

    // Test non-failed pod
    let running_pod = create_test_pod("running-pod", "Running", old_time);
    assert!(!is_failed_over_grace(&running_pod, GRACE_MINUTES, NOW));
}

#[test]
fn test_is_unready_over_grace() {
    let old_time = NOW - 600;

    // Test unready running pod over grace period
    let mut unready_pod = create_test_pod("unready-pod", "Running", old_time);
    unready_pod.conditions = vec![condition("Ready", "False", Some("Container not ready"))];
    assert!(is_unready_over_grace(&unready_pod, GRACE_MINUTES, NOW));

    // Test ready pod
    unready_pod.conditions = vec![condition("Ready", "True", None)];
    assert!(!is_unready_over_grace(&unready_pod, GRACE_MINUTES, NOW));

    // Test non-running pod
    let pending_pod = create_test_pod("pending-pod", "Pending", old_time);
    assert!(!is_unready_over_grace(&pending_pod, GRACE_MINUTES, NOW));
}

#[test]
fn test_extract_pod_failure_info() {
    let mut pod = create_test_pod("test-pod", "Failed", NOW);

    // Test with reason and message
    pod.reason = Some("DeadlineExceeded".to_string());
    pod.message = Some("Job deadline exceeded".to_string());

    let (reason, message) = extract_pod_failure_info(&pod);
    assert_eq!(reason, Some("DeadlineExceeded".to_string()));
    assert_eq!(message, Some("Job deadline exceeded".to_string()));

    // Test without reason and message
    pod.reason = None;
    pod.message = None;

    let (reason, message) = extract_pod_failure_info(&pod);
    assert_eq!(reason, None);
    assert_eq!(message, None);
}

#[test]
fn test_extract_failed_conditions() {
    let mut pod = create_test_pod("test-pod", "Running", NOW);

    // Test with failed conditions
    pod.conditions = vec![
        condition("Ready", "False", Some("Container not ready")),
        condition("ContainersReady", "False", Some("Readiness probe failed")),
        condition("PodScheduled", "True", None),
    ];

    let failed_conditions = extract_failed_conditions(&pod);
    assert_eq!(failed_conditions.len(), 2);
    assert!(failed_conditions.contains(&"Ready: Container not ready".to_string()));
    assert!(failed_conditions.contains(&"ContainersReady: Readiness probe failed".to_string()));
    assert!(!failed_conditions.iter().any(|c| c.contains("PodScheduled")));
}

#[test]
fn test_extract_oom_info() {
    let grace_cutoff = NOW - 120; // two minutes ago
    let oom_time = NOW - 60; // one minute ago, after the cutoff

    // Test OOMKilled container
    let mut container_status = ContainerStatusSnapshot {
        name: "test-container".to_string(),
        restart_count: 5,
        last_terminated: Some(TerminatedState {
            reason: Some("OOMKilled".to_string()),
            finished_at: Some(oom_time),
            message: None,
            exit_code: 137,
        }),
        waiting: None,
    };

    let oom_info = extract_oom_info(&container_status, grace_cutoff, 0, NOW);
    assert!(oom_info.is_some());
    assert_eq!(oom_info.unwrap(), Some(oom_time));

    // Test OOMKilled before grace period
    let early_oom_time = NOW - 600;
    container_status.last_terminated.as_mut().unwrap().finished_at = Some(early_oom_time);

    let oom_info = extract_oom_info(&container_status, grace_cutoff, 0, NOW);
    assert!(oom_info.is_none());

    // Test non-OOMKilled container
    container_status.last_terminated.as_mut().unwrap().reason = Some("Error".to_string());

    let oom_info = extract_oom_info(&container_status, grace_cutoff, 0, NOW);
    assert!(oom_info.is_none());
}
