use std::time::{Duration, SystemTime, UNIX_EPOCH};

use consumption_events::event::{Event, IdempotencyKey};
use consumption_events::ids::{time_backwards, Lsn, TenantId, TimelineId, Timestamp};
use consumption_events::metrics::{Cache, EventType, MetricItem, MetricsKey, Name};
use consumption_events::tenant::TenantSnapshot;
use consumption_events::timeline::TimelineSnapshot;

fn ts(t: SystemTime) -> Timestamp {
    Timestamp::from_nanos(t.duration_since(UNIX_EPOCH).unwrap().as_nanos() as i64)
}

fn ids() -> (TenantId, TimelineId) {
    let n = SystemTime::now().duration_since(UNIX_EPOCH).unwrap().as_nanos();
    let mut a = [0u8; 16];
    let mut b = [0u8; 16];
    for i in 0..16 {
        a[i] = (n >> (i % 8 * 8)) as u8 ^ i as u8;
        b[i] = a[i].wrapping_mul(31).wrapping_add(7);
    }
    (TenantId::from_array(a), TimelineId::from_array(b))
}

fn secs(n: i64) -> i64 {
    n * 1_000_000_000
}

fn minus(t: Timestamp, nanos: i64) -> Timestamp {
    Timestamp::from_nanos(t.nanos - nanos)
}

#[test]
fn startup_collected_timeline_metrics_before_advancing() {
    let (tenant_id, timeline_id) = ids();

    let mut metrics = Vec::new();
    let cache = Cache::new();

    let initdb_lsn = Lsn(0x10000);
    let disk_consistent_lsn = Lsn(initdb_lsn.0 * 2);

    let snap = TimelineSnapshot {
        loaded_at: (disk_consistent_lsn, ts(SystemTime::now())),
        last_record_lsn: disk_consistent_lsn,
        current_exact_logical_size: Some(0x42000),
    };

    let now = ts(SystemTime::now());

    snap.to_metrics(tenant_id, timeline_id, now, &mut metrics, &cache);

    assert_eq!(
        metrics,
        &[
            MetricsKey::written_size_delta(tenant_id, timeline_id).from_previous_up_to(
                snap.loaded_at.1,
                now,
                0
            ),
            MetricsKey::written_size(tenant_id, timeline_id).at(now, disk_consistent_lsn.0),
            MetricsKey::timeline_logical_size(tenant_id, timeline_id).at(now, 0x42000)
        ]
    );
}

#[test]
fn startup_collected_timeline_metrics_second_round() {
    let (tenant_id, timeline_id) = ids();

    let [now, before, init] = time_backwards(ts(SystemTime::now()));

        
    let initdb_lsn = Lsn(0x10000);
    let disk_consistent_lsn = Lsn(initdb_lsn.0 * 2);

    let mut metrics = Vec::new();
    let cache = Cache::from_items(vec![
        MetricsKey::written_size(tenant_id, timeline_id).at(before, disk_consistent_lsn.0)
    ]);

    let snap = TimelineSnapshot {
        loaded_at: (disk_consistent_lsn, init),
        last_record_lsn: disk_consistent_lsn,
        current_exact_logical_size: Some(0x42000),
    };

    snap.to_metrics(tenant_id, timeline_id, now, &mut metrics, &cache);

    assert_eq!(
        metrics,
        &[
            MetricsKey::written_size_delta(tenant_id, timeline_id)
                .from_previous_up_to(before, now, 0),
            MetricsKey::written_size(tenant_id, timeline_id).at(now, disk_consistent_lsn.0),
            MetricsKey::timeline_logical_size(tenant_id, timeline_id).at(now, 0x42000)
        ]
    );
}

#[test]
fn startup_collected_timeline_metrics_nth_round_at_same_lsn() {
    let (tenant_id, timeline_id) = ids();

    let [now, just_before, before, init] = time_backwards(ts(SystemTime::now()));

            
    let initdb_lsn = Lsn(0x10000);
    let disk_consistent_lsn = Lsn(initdb_lsn.0 * 2);

    let mut metrics = Vec::new();
    let cache = Cache::from_items(vec![
        // at t=before was the last time the last_record_lsn changed
        MetricsKey::written_size(tenant_id, timeline_id).at(before, disk_consistent_lsn.0),
        // end time of this event is used for the next ones
        MetricsKey::written_size_delta(tenant_id, timeline_id).from_previous_up_to(
            before,
            just_before,
            0,
        ),
    ]);

    let snap = TimelineSnapshot {
        loaded_at: (disk_consistent_lsn, init),
        last_record_lsn: disk_consistent_lsn,
        current_exact_logical_size: Some(0x42000),
    };

    snap.to_metrics(tenant_id, timeline_id, now, &mut metrics, &cache);

    assert_eq!(
        metrics,
        &[
            MetricsKey::written_size_delta(tenant_id, timeline_id).from_previous_up_to(
                just_before,
                now,
                0
            ),
            MetricsKey::written_size(tenant_id, timeline_id).at(now, disk_consistent_lsn.0),
            MetricsKey::timeline_logical_size(tenant_id, timeline_id).at(now, 0x42000)
        ]
    );
}

fn parse_time(s: &str) -> Timestamp {
    let t = chrono::DateTime::parse_from_rfc3339(s).unwrap();
    Timestamp::from_nanos(t.timestamp_nanos_opt().unwrap())
}

fn to_event(item: MetricItem, idempotency_key: String) -> Event {
    let (key, (kind, value)) = item;
    Event {
        kind,
        metric: key.metric,
        idempotency_key,
        value,
        tenant_id: key.tenant_id,
        timeline_id: key.timeline_id,
    }
}

#[test]
fn metric_image_stability() {
    // it is important that these strings stay as they are

    let tenant_id = TenantId::from_array([0; 16]);
    let timeline_id = TimelineId::from_array([0xff; 16]);

    let now = parse_time("2023-09-15T00:00:00.123456789Z");
    let before = parse_time("2023-09-14T00:00:00.123456789Z");

    let examples = [
        (
            1,
            MetricsKey::written_size(tenant_id, timeline_id).at(now, 0),
            r#"{"type":"absolute","time":"2023-09-15T00:00:00.123456789Z","metric":"written_size","idempotency_key":"2023-09-15 00:00:00.123456789 UTC-1-0000","value":0,"tenant_id":"00000000000000000000000000000000","timeline_id":"ffffffffffffffffffffffffffffffff"}"#,
        ),
        (
            2,
            MetricsKey::written_size_delta(tenant_id, timeline_id)
                .from_previous_up_to(before, now, 0),
            r#"{"type":"incremental","start_time":"2023-09-14T00:00:00.123456789Z","stop_time":"2023-09-15T00:00:00.123456789Z","metric":"written_data_bytes_delta","idempotency_key":"2023-09-15 00:00:00.123456789 UTC-1-0000","value":0,"tenant_id":"00000000000000000000000000000000","timeline_id":"ffffffffffffffffffffffffffffffff"}"#,
        ),
        (
            3,
            MetricsKey::timeline_logical_size(tenant_id, timeline_id).at(now, 0),
            r#"{"type":"absolute","time":"2023-09-15T00:00:00.123456789Z","metric":"timeline_logical_size","idempotency_key":"2023-09-15 00:00:00.123456789 UTC-1-0000","value":0,"tenant_id":"00000000000000000000000000000000","timeline_id":"ffffffffffffffffffffffffffffffff"}"#,
        ),
        (
            4,
            MetricsKey::remote_storage_size(tenant_id).at(now, 0),
            r#"{"type":"absolute","time":"2023-09-15T00:00:00.123456789Z","metric":"remote_storage_size","idempotency_key":"2023-09-15 00:00:00.123456789 UTC-1-0000","value":0,"tenant_id":"00000000000000000000000000000000"}"#,
        ),
        (
            5,
            MetricsKey::resident_size(tenant_id).at(now, 0),
            r#"{"type":"absolute","time":"2023-09-15T00:00:00.123456789Z","metric":"resident_size","idempotency_key":"2023-09-15 00:00:00.123456789 UTC-1-0000","value":0,"tenant_id":"00000000000000000000000000000000"}"#,
        ),
        (
            6,
            MetricsKey::synthetic_size(tenant_id).at(now, 1),
            r#"{"type":"absolute","time":"2023-09-15T00:00:00.123456789Z","metric":"synthetic_storage_size","idempotency_key":"2023-09-15 00:00:00.123456789 UTC-1-0000","value":1,"tenant_id":"00000000000000000000000000000000"}"#,
        ),
    ];

    let idempotency_key = IdempotencyKey::new(now, "1", 0);

    for (line, item, expected) in examples {
        let e = to_event(item, idempotency_key.to_string());
        let actual = e.to_json();
        assert_eq!(expected, actual, "example {line}");
    }
}

#[test]
fn post_restart_written_sizes_with_rolled_back_last_record_lsn() {
    // it can happen that we lose the inmemorylayer but have previously sent metrics and we
    // should never go backwards

    let (tenant_id, timeline_id) = ids();

    let [later, now, at_restart] = time_backwards(ts(SystemTime::now()));

    let before_restart = minus(at_restart, secs(5 * 60));
    let way_before = minus(before_restart, secs(10 * 60));

    let snap = TimelineSnapshot {
        loaded_at: (Lsn(50), at_restart),
        last_record_lsn: Lsn(50),
        current_exact_logical_size: None,
    };

    let mut cache = Cache::from_items(vec![
        MetricsKey::written_size(tenant_id, timeline_id).at(before_restart, 100),
        MetricsKey::written_size_delta(tenant_id, timeline_id).from_previous_up_to(
            way_before,
            before_restart,
            // not taken into account, but the timestamps are important
            999_999_999,
        ),
    ]);

    let mut metrics = Vec::new();
    snap.to_metrics(tenant_id, timeline_id, now, &mut metrics, &cache);

    assert_eq!(
        metrics,
        &[
            MetricsKey::written_size_delta(tenant_id, timeline_id).from_previous_up_to(
                before_restart,
                now,
                0
            ),
            MetricsKey::written_size(tenant_id, timeline_id).at(now, 100),
        ]
    );

    // now if we cache these metrics, and re-run while "still in recovery"
    cache.extend(std::mem::take(&mut metrics));

    // "still in recovery", because our snapshot did not change
    snap.to_metrics(tenant_id, timeline_id, later, &mut metrics, &cache);

    assert_eq!(
        metrics,
        &[
            MetricsKey::written_size_delta(tenant_id, timeline_id)
                .from_previous_up_to(now, later, 0),
            MetricsKey::written_size(tenant_id, timeline_id).at(later, 100),
        ]
    );
}

#[test]
fn post_restart_current_exact_logical_size_uses_cached() {
    let (tenant_id, timeline_id) = ids();

    let [now, at_restart] = time_backwards(ts(SystemTime::now()));

    let before_restart = minus(at_restart, secs(5 * 60));

    let snap = TimelineSnapshot {
        loaded_at: (Lsn(50), at_restart),
        last_record_lsn: Lsn(50),
        current_exact_logical_size: None,
    };

    let cache = Cache::from_items(vec![
        MetricsKey::timeline_logical_size(tenant_id, timeline_id).at(before_restart, 100)
    ]);

    let mut metrics = Vec::new();
    snap.to_metrics(tenant_id, timeline_id, now, &mut metrics, &cache);

    metrics.retain(|(key, _)| key.metric == Name::LogicalSize);

    assert_eq!(
        metrics,
        &[MetricsKey::timeline_logical_size(tenant_id, timeline_id).at(now, 100)]
    );
}

#[test]
fn post_restart_synthetic_size_uses_cached_if_available() {
    let (tenant_id, _) = ids();

    let ts_ = TenantSnapshot {
        resident_size: 1000,
        remote_size: 1000,
        // not yet calculated
        synthetic_size: 0,
    };

    let now = SystemTime::now();
    let before_restart = ts(now - Duration::from_secs(5 * 60));
    let now = ts(now);
    let cached = Cache::from_items(vec![MetricsKey::synthetic_size(tenant_id).at(before_restart, 1000)]);

    let mut metrics = Vec::new();
    ts_.to_metrics(tenant_id, now, &cached, &mut metrics);

    assert_eq!(
        metrics,
        &[
            MetricsKey::remote_storage_size(tenant_id).at(now, 1000),
            MetricsKey::resident_size(tenant_id).at(now, 1000),
            MetricsKey::synthetic_size(tenant_id).at(now, 1000),
        ]
    );
}

#[test]
fn post_restart_synthetic_size_is_not_sent_when_not_cached() {
    let (tenant_id, _) = ids();

    let ts_ = TenantSnapshot {
        resident_size: 1000,
        remote_size: 1000,
        // not yet calculated
        synthetic_size: 0,
    };

    let now = ts(SystemTime::now());

    let cached = Cache::new();

    let mut metrics = Vec::new();
    ts_.to_metrics(tenant_id, now, &cached, &mut metrics);

    assert_eq!(
        metrics,
        &[
            MetricsKey::remote_storage_size(tenant_id).at(now, 1000),
            MetricsKey::resident_size(tenant_id).at(now, 1000),
            // no synthetic size here
        ]
    );
}
