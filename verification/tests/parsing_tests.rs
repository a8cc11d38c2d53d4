use kube_health_reporter::any_exceeds;
use kube_health_reporter::compute_utilization_percentages;
use kube_health_reporter::parse_cpu_to_millicores;
use kube_health_reporter::parse_memory_to_bytes;
use kube_health_reporter::Percentage;
use kube_health_reporter::PodRequestTotals;
use kube_health_reporter::PodUsageTotals;
use kube_health_reporter::Threshold;

#[test]
fn test_parse_cpu_to_millicores() {
    // Test nanoseconds
    assert_eq!(parse_cpu_to_millicores("1000000000n"), Some(1000));
    assert_eq!(parse_cpu_to_millicores("500000000n"), Some(500));

    // Test microseconds
    assert_eq!(parse_cpu_to_millicores("1000000u"), Some(1000));
    assert_eq!(parse_cpu_to_millicores("500000u"), Some(500));

    // Test millicores
    assert_eq!(parse_cpu_to_millicores("100m"), Some(100));
    assert_eq!(parse_cpu_to_millicores("1500m"), Some(1500));

    // Test cores (as decimals)
    assert_eq!(parse_cpu_to_millicores("1"), Some(1000));
    assert_eq!(parse_cpu_to_millicores("0.5"), Some(500));
    assert_eq!(parse_cpu_to_millicores("2.5"), Some(2500));

    // Test invalid inputs
    assert_eq!(parse_cpu_to_millicores(""), None);
    assert_eq!(parse_cpu_to_millicores("invalid"), None);
    assert_eq!(parse_cpu_to_millicores("100x"), None);
}

#[test]
fn test_parse_memory_to_bytes() {
    // Test binary units
    assert_eq!(parse_memory_to_bytes("1Ki"), Some(1024));
    assert_eq!(parse_memory_to_bytes("1Mi"), Some(1024 * 1024));
    assert_eq!(parse_memory_to_bytes("1Gi"), Some(1024 * 1024 * 1024));
    assert_eq!(parse_memory_to_bytes("2.5Mi"), Some((2.5 * 1024.0 * 1024.0) as i64));

    // Test decimal units
    assert_eq!(parse_memory_to_bytes("1K"), Some(1000));
    assert_eq!(parse_memory_to_bytes("1M"), Some(1000 * 1000));
    assert_eq!(parse_memory_to_bytes("1G"), Some(1000 * 1000 * 1000));
    assert_eq!(parse_memory_to_bytes("1k"), Some(1000)); // lowercase k

    // Test bytes without suffix
    assert_eq!(parse_memory_to_bytes("1024"), Some(1024));
    assert_eq!(parse_memory_to_bytes("500"), Some(500));

    // Test invalid inputs
    assert_eq!(parse_memory_to_bytes(""), None);
    assert_eq!(parse_memory_to_bytes("invalid"), None);
    assert_eq!(parse_memory_to_bytes("100X"), None);
}

#[test]
fn test_compute_utilization_percentages() {
    let usage = PodUsageTotals {
        cpu_millicores: 500,
        memory_bytes: 1024 * 1024 * 512, // 512 MiB
    };

    // Test with valid requests
    let requests = PodRequestTotals {
        cpu_millicores: Some(1000),                // 1 CPU
        memory_bytes: Some(1024 * 1024 * 1024),    // 1 GiB
    };

    let (cpu_pct, mem_pct) = compute_utilization_percentages(&usage, &requests);
    assert_eq!(cpu_pct, Some(Percentage::new(500, 1000))); // 50.0 %
    assert_eq!(mem_pct, Some(Percentage::new(1024 * 1024 * 512, 1024 * 1024 * 1024))); // 50.0 %

    // Test with no requests
    let no_requests = PodRequestTotals { cpu_millicores: None, memory_bytes: None };

    let (cpu_pct, mem_pct) = compute_utilization_percentages(&usage, &no_requests);
    assert_eq!(cpu_pct, None);
    assert_eq!(mem_pct, None);

    // Test with zero requests
    let zero_requests = PodRequestTotals { cpu_millicores: Some(0), memory_bytes: Some(0) };

    let (cpu_pct, mem_pct) = compute_utilization_percentages(&usage, &zero_requests);
    assert_eq!(cpu_pct, None);
    assert_eq!(mem_pct, None);
}

#[test]
fn test_any_exceeds() {
    let t85 = Threshold::from_percent(85);

    // Test both exceed (90.0, 95.0)
    assert_eq!(any_exceeds(Some(Percentage::new(90, 100)), Some(Percentage::new(95, 100)), t85), Some(true));

    // Test CPU exceeds, memory doesn't (90.0, 80.0)
    assert_eq!(any_exceeds(Some(Percentage::new(90, 100)), Some(Percentage::new(80, 100)), t85), Some(true));

    // Test memory exceeds, CPU doesn't (80.0, 90.0)
    assert_eq!(any_exceeds(Some(Percentage::new(80, 100)), Some(Percentage::new(90, 100)), t85), Some(true));

    // Test neither exceeds (80.0, 75.0)
    assert_eq!(any_exceeds(Some(Percentage::new(80, 100)), Some(Percentage::new(75, 100)), t85), Some(false));

    // Test with None values
    assert_eq!(any_exceeds(None, None, t85), None);
    assert_eq!(any_exceeds(Some(Percentage::new(90, 100)), None, t85), Some(true));
    assert_eq!(any_exceeds(None, Some(Percentage::new(90, 100)), t85), Some(true));
    assert_eq!(any_exceeds(Some(Percentage::new(80, 100)), None, t85), Some(false));
}
