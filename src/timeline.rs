use vstd::prelude::*;

use crate::ids::{Lsn, TenantId, TimelineId, Timestamp};
use crate::metrics::{lookup, Cache, EventType, MetricItem, MetricsKey, Name};

verus! {

/// What is known of one timeline in one collection round.
#[derive(Clone, Copy, Debug)]
pub struct TimelineSnapshot {
    /// The write position and the instant at which the timeline was loaded.
    pub loaded_at: (Lsn, Timestamp),
    /// The current write position.
    pub last_record_lsn: Lsn,
    /// The logical size, where it was computed this round.
    pub current_exact_logical_size: Option<u64>,
}

impl TimelineSnapshot {
    /// The cumulative bytes written: the write position, never below the last reported value.
    pub open spec fn written_now(self, tenant_id: TenantId, timeline_id: TimelineId, cache: Cache) -> u64 {
        let raw = self.last_record_lsn.0;
        match cache.get_spec(MetricsKey::of_timeline(tenant_id, timeline_id, Name::WrittenSize)) {
            Some((_, prev)) => if prev > raw { prev } else { raw },
            None => raw,
        }
    }

    /// Where the next write interval starts, with the written size counted as already reported:
    /// the end of the last interval, with the last reported written size or, where there is
    /// none, the current one; else the last reported written size, at the time it was reported;
    /// else the load of the timeline, with its write position then.
    pub open spec fn written_start(self, tenant_id: TenantId, timeline_id: TimelineId, cache: Cache) -> (Timestamp, u64) {
        let written = cache.get_spec(MetricsKey::of_timeline(tenant_id, timeline_id, Name::WrittenSize));
        let delta = cache.get_spec(MetricsKey::of_timeline(tenant_id, timeline_id, Name::WrittenSizeDelta));
        match (delta, written) {
            (Some((d, _)), Some((_, prev))) => (d.recorded_at(), prev),
            (Some((d, _)), None) => (d.recorded_at(), self.written_now(tenant_id, timeline_id, cache)),
            (None, Some((w, prev))) => (w.recorded_at(), prev),
            (None, None) => (self.loaded_at.1, self.loaded_at.0.0),
        }
    }

    /// The logical size to report: this round's, else the last one reported.
    pub open spec fn logical_size(self, tenant_id: TenantId, timeline_id: TimelineId, cache: Cache) -> Option<u64> {
        match self.current_exact_logical_size {
            Some(v) => Some(v),
            None => match cache.get_spec(MetricsKey::of_timeline(tenant_id, timeline_id, Name::LogicalSize)) {
                Some((_, v)) => Some(v),
                None => None,
            },
        }
    }

    /// The facts of one round, in order: bytes written since the interval start, the written
    /// size, and the logical size where there is one.
    pub open spec fn events(self, tenant_id: TenantId, timeline_id: TimelineId, now: Timestamp, cache: Cache) -> Seq<MetricItem> {
        let current = self.written_now(tenant_id, timeline_id, cache);
        let (start_time, start) = self.written_start(tenant_id, timeline_id, cache);
        let delta: u64 = if current >= start { (current - start) as u64 } else { 0 };
        let written = seq![
            (MetricsKey::of_timeline(tenant_id, timeline_id, Name::WrittenSizeDelta),
                (EventType::Incremental { start_time, stop_time: now }, delta)),
            (MetricsKey::of_timeline(tenant_id, timeline_id, Name::WrittenSize),
                (EventType::Absolute { time: now }, current)),
        ];
        match self.logical_size(tenant_id, timeline_id, cache) {
            Some(v) => written.push(
                (MetricsKey::of_timeline(tenant_id, timeline_id, Name::LogicalSize),
                    (EventType::Absolute { time: now }, v)),
            ),
            None => written,
        }
    }

    /// Appends this round's facts for the timeline to `metrics`. The interval may not start after
    /// `now`: a cache or a clock that says so is the caller's error.
    pub fn to_metrics(
        &self,
        tenant_id: TenantId,
        timeline_id: TimelineId,
        now: Timestamp,
        metrics: &mut Vec<MetricItem>,
        cache: &Cache,
    )
        requires
            self.written_start(tenant_id, timeline_id, *cache).0.nanos <= now.nanos,
        ensures
            final(metrics)@ == old(metrics)@ + self.events(tenant_id, timeline_id, now, *cache),
    {
        let written_key = MetricsKey::written_size(tenant_id, timeline_id);
        let delta_key = MetricsKey::written_size_delta(tenant_id, timeline_id);
        let written = cache.get(&written_key);
        let raw = self.last_record_lsn.0;
        let current = match written {
            Some((_, prev)) => if prev > raw { prev } else { raw },
            None => raw,
        };
        let (start_time, start) = match (cache.get(&delta_key), written) {
            (Some((d, _)), Some((_, prev))) => (d.recorded_at_time(), prev),
            (Some((d, _)), None) => (d.recorded_at_time(), current),
            (None, Some((w, prev))) => (w.recorded_at_time(), prev),
            (None, None) => (self.loaded_at.1, self.loaded_at.0.0),
        };
        let delta = if current >= start { current - start } else { 0 };
        metrics.push(delta_key.from_previous_up_to(start_time, now, delta));
        metrics.push(written_key.at(now, current));
        let logical = match self.current_exact_logical_size {
            Some(v) => Some(v),
            None => match cache.get(&MetricsKey::timeline_logical_size(tenant_id, timeline_id)) {
                Some((_, v)) => Some(v),
                None => None,
            },
        };
        if let Some(v) = logical {
            metrics.push(MetricsKey::timeline_logical_size(tenant_id, timeline_id).at(now, v));
        }
        assert(metrics@ =~= old(metrics)@ + self.events(tenant_id, timeline_id, now, *cache));
    }
}


/// When the facts of a round are added to the cache, the next round finds the written size and
/// the interval end that were just emitted.
proof fn lemma_carried(
    snap: TimelineSnapshot,
    tenant_id: TenantId,
    timeline_id: TimelineId,
    now: Timestamp,
    before: Cache,
    after: Cache,
)
    requires
        after.carries(before, snap.events(tenant_id, timeline_id, now, before)),
    ensures
        after.get_spec(MetricsKey::of_timeline(tenant_id, timeline_id, Name::WrittenSize)) == Some(
            snap.events(tenant_id, timeline_id, now, before)[1].1,
        ),
        after.get_spec(MetricsKey::of_timeline(tenant_id, timeline_id, Name::WrittenSizeDelta)) == Some(
            snap.events(tenant_id, timeline_id, now, before)[0].1,
        ),
{
    let out = snap.events(tenant_id, timeline_id, now, before);
    let wk = MetricsKey::of_timeline(tenant_id, timeline_id, Name::WrittenSize);
    let dk = MetricsKey::of_timeline(tenant_id, timeline_id, Name::WrittenSizeDelta);
    assert(after.get_spec(wk) == lookup(out, wk) || lookup(out, wk) is None);
    assert(after.get_spec(dk) == lookup(out, dk) || lookup(out, dk) is None);
    let two = out.subrange(0, 2);
    assert(two.drop_last() =~= out.subrange(0, 1));
    assert(out.subrange(0, 1).drop_last() =~= Seq::<MetricItem>::empty());
    assert(lookup(two, wk) == Some(out[1].1));
    assert(lookup(out.subrange(0, 1), dk) == Some(out[0].1));
    assert(lookup(two, dk) == Some(out[0].1));
    if out.len() == 3 {
        assert(out.drop_last() =~= two);
    } else {
        assert(out =~= two);
    }
}

/// The written size never goes down from one round to the next when the cache carries the
/// facts of the first round, whatever the write position of the second.
pub proof fn lemma_written_size_never_decreases(
    first: TimelineSnapshot,
    second: TimelineSnapshot,
    tenant_id: TenantId,
    timeline_id: TimelineId,
    now1: Timestamp,
    now2: Timestamp,
    cache1: Cache,
    cache2: Cache,
)
    requires
        cache2.carries(cache1, first.events(tenant_id, timeline_id, now1, cache1)),
    ensures
        second.events(tenant_id, timeline_id, now2, cache2)[1].1.1 >= first.events(
            tenant_id,
            timeline_id,
            now1,
            cache1,
        )[1].1.1,
{
    lemma_carried(first, tenant_id, timeline_id, now1, cache1, cache2);
}

/// The write interval of a round starts where the one of the round before ended, when the cache
/// carries the facts of that round.
pub proof fn lemma_written_intervals_contiguous(
    first: TimelineSnapshot,
    second: TimelineSnapshot,
    tenant_id: TenantId,
    timeline_id: TimelineId,
    now1: Timestamp,
    now2: Timestamp,
    cache1: Cache,
    cache2: Cache,
)
    requires
        cache2.carries(cache1, first.events(tenant_id, timeline_id, now1, cache1)),
    ensures
        first.events(tenant_id, timeline_id, now1, cache1)[0].1.0 is Incremental,
        second.events(tenant_id, timeline_id, now2, cache2)[0].1.0 is Incremental,
        first.events(tenant_id, timeline_id, now1, cache1)[0].1.0->stop_time == now1,
        second.events(tenant_id, timeline_id, now2, cache2)[0].1.0->start_time == now1,
{
    lemma_carried(first, tenant_id, timeline_id, now1, cache1, cache2);
}

/// Every fact of a round has a value of at least zero and an interval that does not end before it starts; the bytes written over the interval are the
/// growth of the written size, or zero where the written size lies below the start.
pub proof fn lemma_timeline_events_well_formed(
    snap: TimelineSnapshot,
    tenant_id: TenantId,
    timeline_id: TimelineId,
    now: Timestamp,
    cache: Cache,
)
    requires
        snap.written_start(tenant_id, timeline_id, cache).0.nanos <= now.nanos,
    ensures
        forall|i: int|
            0 <= i < snap.events(tenant_id, timeline_id, now, cache).len() ==> {
                &&& (#[trigger] snap.events(tenant_id, timeline_id, now, cache)[i]).1.0.well_formed()
                &&& snap.events(tenant_id, timeline_id, now, cache)[i].1.1 >= 0
            },
        snap.events(tenant_id, timeline_id, now, cache)[0].1.1 as int == (if snap.written_now(
            tenant_id,
            timeline_id,
            cache,
        ) >= snap.written_start(tenant_id, timeline_id, cache).1 {
            snap.written_now(tenant_id, timeline_id, cache) - snap.written_start(
                tenant_id,
                timeline_id,
                cache,
            ).1
        } else {
            0
        }),
{
}

/// Without a fresh logical size, the last one reported is sent again at `now`, and none is sent
/// where none was reported.
pub proof fn lemma_logical_size_carried_forward(
    snap: TimelineSnapshot,
    tenant_id: TenantId,
    timeline_id: TimelineId,
    now: Timestamp,
    cache: Cache,
)
    requires
        snap.current_exact_logical_size is None,
    ensures
        match cache.get_spec(MetricsKey::of_timeline(tenant_id, timeline_id, Name::LogicalSize)) {
            Some((_, v)) => snap.events(tenant_id, timeline_id, now, cache).len() == 3
                && snap.events(tenant_id, timeline_id, now, cache)[2] == (
                MetricsKey::of_timeline(tenant_id, timeline_id, Name::LogicalSize),
                (EventType::Absolute { time: now }, v),
            ),
            None => forall|i: int|
                0 <= i < snap.events(tenant_id, timeline_id, now, cache).len() ==> (#[trigger] snap.events(
                    tenant_id,
                    timeline_id,
                    now,
                    cache,
                )[i]).0.metric != Name::LogicalSize,
        },
{
}

} // verus!
