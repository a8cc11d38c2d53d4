use kube_health_reporter::any_exceeds;
use kube_health_reporter::compute_utilization_percentages;
use kube_health_reporter::load_config_with_env;
use kube_health_reporter::parse_cpu_to_millicores;
use kube_health_reporter::parse_memory_to_bytes;
use kube_health_reporter::Config;
use kube_health_reporter::HealthReport;
use kube_health_reporter::HeavyUsagePod;
use kube_health_reporter::MockEnvironment;
use kube_health_reporter::Percentage;
use kube_health_reporter::PodRequestTotals;
use kube_health_reporter::PodUsageTotals;
use kube_health_reporter::ReportSummary;
use kube_health_reporter::Threshold;

#[test]
fn test_cpu_parsing_edge_cases() {
    // Test various edge cases for CPU parsing
    assert_eq!(parse_cpu_to_millicores("0"), Some(0));
    assert_eq!(parse_cpu_to_millicores("0.001"), Some(1));
    assert_eq!(parse_cpu_to_millicores("10.5"), Some(10500));

    // Test with whitespace
    assert_eq!(parse_cpu_to_millicores("  100m  "), Some(100));
    assert_eq!(parse_cpu_to_millicores("\t1\n"), Some(1000));

    // Test extreme values
    assert_eq!(parse_cpu_to_millicores("999999999n"), Some(999));
    assert_eq!(parse_cpu_to_millicores("1000000u"), Some(1000));
}

#[test]
fn test_memory_parsing_edge_cases() {
    // Test various edge cases for memory parsing
    assert_eq!(parse_memory_to_bytes("0"), Some(0));
    assert_eq!(parse_memory_to_bytes("1"), Some(1));

    // Test with whitespace
    assert_eq!(parse_memory_to_bytes("  1Mi  "), Some(1024 * 1024));
    assert_eq!(parse_memory_to_bytes("\t1Gi\n"), Some(1024 * 1024 * 1024));

    // Test fractional values
    assert_eq!(parse_memory_to_bytes("0.5Gi"), Some((0.5 * 1024.0 * 1024.0 * 1024.0) as i64));
    assert_eq!(parse_memory_to_bytes("1.5Mi"), Some((1.5 * 1024.0 * 1024.0) as i64));

    // Test priority of binary vs decimal units (binary should be checked first)
    assert_eq!(parse_memory_to_bytes("1Ki"), Some(1024)); // Ki should be parsed as binary
    assert_eq!(parse_memory_to_bytes("1K"), Some(1000)); // K should be parsed as decimal
}

#[test]
fn test_utilization_calculations_edge_cases() {
    // Test with zero usage
    let zero_usage = PodUsageTotals { cpu_millicores: 0, memory_bytes: 0 };

    let requests = PodRequestTotals {
        cpu_millicores: Some(1000),
        memory_bytes: Some(1024 * 1024 * 1024),
    };

    let (cpu_pct, mem_pct) = compute_utilization_percentages(&zero_usage, &requests);
    assert_eq!(cpu_pct, Some(Percentage::new(0, 1000))); // 0.0 %
    assert_eq!(mem_pct, Some(Percentage::new(0, 1024 * 1024 * 1024))); // 0.0 %

    // Test with very high usage (over 100%)
    let high_usage = PodUsageTotals {
        cpu_millicores: 2000,                      // 200% of request
        memory_bytes: 2 * 1024 * 1024 * 1024,      // 200% of request
    };

    let (cpu_pct, mem_pct) = compute_utilization_percentages(&high_usage, &requests);
    assert_eq!(cpu_pct, Some(Percentage::new(2000, 1000))); // 200.0 %
    assert_eq!(mem_pct, Some(Percentage::new(2 * 1024 * 1024 * 1024, 1024 * 1024 * 1024)));
}

#[test]
fn test_threshold_checking_comprehensive() {
    let t85 = Threshold::from_percent(85);
    let t0 = Threshold::from_percent(0);

    // Test exact threshold match: 85.0 vs 85.0
    assert_eq!(
        any_exceeds(Some(Percentage::new(85, 100)), Some(Percentage::new(85, 100)), t85),
        Some(false)
    );

    // Test just above threshold: 85.1 / 84.9
    assert_eq!(
        any_exceeds(Some(Percentage::new(851, 1000)), Some(Percentage::new(849, 1000)), t85),
        Some(true)
    );
    assert_eq!(
        any_exceeds(Some(Percentage::new(849, 1000)), Some(Percentage::new(851, 1000)), t85),
        Some(true)
    );

    // Test with very small differences: 85.000001 / 84.999999
    assert_eq!(
        any_exceeds(
            Some(Percentage::new(85_000_001, 100_000_000)),
            Some(Percentage::new(84_999_999, 100_000_000)),
            t85
        ),
        Some(true)
    );

    // Test with zero threshold: 0.1 / 0.0
    assert_eq!(
        any_exceeds(Some(Percentage::new(1, 1000)), Some(Percentage::new(0, 1)), t0),
        Some(true)
    );
    assert_eq!(
        any_exceeds(Some(Percentage::new(0, 1)), Some(Percentage::new(0, 1)), t0),
        Some(false)
    );

    // Test with negative values (shouldn't happen in practice but good to test)
    assert_eq!(
        any_exceeds(Some(Percentage::new(-10, 100)), Some(Percentage::new(-5, 100)), t0),
        Some(false)
    );
}

#[test]
fn test_config_environment_isolation() {
    // Test that missing required variables cause errors
    let empty_env = MockEnvironment::new();
    assert!(load_config_with_env(&empty_env).is_err());

    // Set minimal config
    let env = MockEnvironment::new()
        .with_var("NAMESPACES", "test-ns1,test-ns2")
        .with_var("SLACK_WEBHOOK_URL", "https://hooks.slack.com/services/test");

    let config = load_config_with_env(&env).unwrap();
    assert_eq!(config.namespaces, vec!["test-ns1".to_string(), "test-ns2".to_string()]);
    assert_eq!(config.slack_webhook_url, "https://hooks.slack.com/services/test".to_string());

    // Test namespace parsing with various formats
    let env = MockEnvironment::new()
        .with_var("NAMESPACES", " ns1 , ns2 ,  ns3  ,")
        .with_var("SLACK_WEBHOOK_URL", "https://hooks.slack.com/services/test");

    let config = load_config_with_env(&env).unwrap();
    assert_eq!(config.namespaces, vec!["ns1".to_string(), "ns2".to_string(), "ns3".to_string()]);

    // Test empty namespaces after trimming
    let env = MockEnvironment::new()
        .with_var("NAMESPACES", " , , ,")
        .with_var("SLACK_WEBHOOK_URL", "https://hooks.slack.com/services/test");

    assert!(load_config_with_env(&env).is_err());
}

#[test]
fn test_boolean_config_parsing() {
    // Test various truthy values
    for val in ["1", "true", "TRUE", "True"] {
        let env = MockEnvironment::new()
            .with_var("NAMESPACES", "test")
            .with_var("SLACK_WEBHOOK_URL", "https://test.com")
            .with_var("FAIL_IF_NO_METRICS", val);

        let config = load_config_with_env(&env).unwrap();
        assert!(config.fail_if_no_metrics, "Failed for value: {}", val);
    }

    // Test various falsy values
    for val in ["0", "false", "FALSE", "False", "no", "off", ""] {
        let env = MockEnvironment::new()
            .with_var("NAMESPACES", "test")
            .with_var("SLACK_WEBHOOK_URL", "https://test.com")
            .with_var("FAIL_IF_NO_METRICS", val);

        let config = load_config_with_env(&env).unwrap();
        assert!(!config.fail_if_no_metrics, "Failed for value: {}", val);
    }

    // Test missing value (should default to true)
    let env = MockEnvironment::new()
        .with_var("NAMESPACES", "test")
        .with_var("SLACK_WEBHOOK_URL", "https://test.com");

    let config = load_config_with_env(&env).unwrap();
    assert!(config.fail_if_no_metrics);
}

#[test]
fn test_report_summary_has_issues() {
    // Test ReportSummary with no issues
    let empty_summary = ReportSummary {
        heavy_usage_count: 0,
        restart_count: 0,
        pending_count: 0,
        failed_pod_count: 0,
        unready_count: 0,
        oom_killed_count: 0,
        failed_job_count: 0,
        missed_cronjob_count: 0,
        volume_issue_count: 0,
        problematic_node_count: 0,
        high_util_node_count: 0,
    };

    assert_eq!(empty_summary.total_issues(), 0);
    assert!(!empty_summary.has_issues());

    // Test ReportSummary with issues
    let summary_with_issues = ReportSummary {
        heavy_usage_count: 2,
        restart_count: 1,
        pending_count: 0,
        failed_pod_count: 1,
        unready_count: 0,
        oom_killed_count: 1,
        failed_job_count: 0,
        missed_cronjob_count: 0,
        volume_issue_count: 0,
        problematic_node_count: 1,
        high_util_node_count: 0,
    };

    assert_eq!(summary_with_issues.total_issues(), 6);
    assert!(summary_with_issues.has_issues());

    // Test ReportSummary with just one issue
    let single_issue_summary = ReportSummary {
        heavy_usage_count: 0,
        restart_count: 0,
        pending_count: 0,
        failed_pod_count: 0,
        unready_count: 0,
        oom_killed_count: 0,
        failed_job_count: 0,
        missed_cronjob_count: 0,
        volume_issue_count: 1,
        problematic_node_count: 0,
        high_util_node_count: 0,
    };

    assert_eq!(single_issue_summary.total_issues(), 1);
    assert!(single_issue_summary.has_issues());
}

#[test]
fn test_health_report_has_issues() {
    let config = Config {
        namespaces: vec!["test".to_string()],
        threshold_percent: Threshold::from_percent(85),
        slack_webhook_url: "https://hooks.slack.com/test".to_string(),
        restart_grace_minutes: 5,
        pending_grace_minutes: 5,
        cluster_name: None,
        datacenter_name: None,
        fail_if_no_metrics: true,
    };

    // Test empty report
    let empty_report = HealthReport::new(config.clone());
    assert!(!empty_report.has_issues());

    // Test report with heavy usage pod
    let mut report_with_issues = HealthReport::new(config.clone());
    report_with_issues.pod_metrics.heavy_usage.push(HeavyUsagePod {
        namespace: "test".to_string(),
        pod: "heavy-pod".to_string(),
        cpu_pct: Some(Percentage::new(90, 100)),
        mem_pct: Some(Percentage::new(95, 100)),
    });

    assert!(report_with_issues.has_issues());
    let summary = report_with_issues.summary();
    assert_eq!(summary.total_issues(), 1);
    assert!(summary.has_issues());
}
