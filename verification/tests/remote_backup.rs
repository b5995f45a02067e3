use clserver::duration::Duration;
use clserver::remote_backup::process::timeval_to_duration;
use clserver::remote_backup::{
    format_bytes, format_duration, format_memory_kib, format_remote_backup_metrics, RemoteBackupMetrics,
};

#[test]
fn formats_byte_counts_like_one_decimal_float() {
    assert_eq!(format_bytes(0), "0 B");
    assert_eq!(format_bytes(1023), "1023 B");
    assert_eq!(format_bytes(1024), "1.0 KiB");
    assert_eq!(format_bytes(1536), "1.5 KiB");
    assert_eq!(format_bytes(13_107_200), "12.5 MiB");
    for bytes in [1025u64, 10_000, 1_048_575, 5_000_000_000, 123_456_789_012_345, u64::MAX] {
        let mut value = bytes as f64;
        let mut unit = "B";
        for next in ["KiB", "MiB", "GiB", "TiB"] {
            if value < 1024.0 {
                break;
            }
            value /= 1024.0;
            unit = next;
        }
        assert_eq!(format_bytes(bytes), format!("{value:.1} {unit}"));
    }
    assert_eq!(format_memory_kib(2048), "2.0 MiB");
}

#[test]
fn formats_metric_durations() {
    assert_eq!(format_duration(Duration::new(0, 250_000_000)), "250ms");
    assert_eq!(format_duration(Duration::from_secs(59)), "59s");
    assert_eq!(format_duration(Duration::from_secs(61)), "1m 1s");
    assert_eq!(format_duration(Duration::from_secs(3600)), "1h 0m 0s");
}

#[test]
fn formats_backup_metrics_line() {
    let metrics = RemoteBackupMetrics {
        duration: Duration::from_secs(10),
        user_cpu: Some(Duration::from_secs(7)),
        system_cpu: None,
        peak_memory_kib: Some(1024),
        bytes_added: None,
    };
    assert_eq!(
        format_remote_backup_metrics(&metrics, Some("70.0")),
        "duration: 10s; CPU: 70.0% (user 7s, system unknown); peak memory: 1.0 MiB; added to repository: unknown"
    );
}

#[test]
fn converts_timevals() {
    let d = timeval_to_duration(3, 500_000).expect("non-negative");
    assert_eq!(d.as_secs(), 3);
    assert_eq!(d.as_millis(), 3500);
    assert!(timeval_to_duration(-1, 0).is_none());
}
