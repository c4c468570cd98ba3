use vstd::prelude::*;

use crate::ids::{same_tenant, same_timeline, TenantId, TimelineId, Timestamp};

verus! {

/// The metrics this library emits.
#[derive(Clone, Copy, Debug, PartialEq, Eq, Structural)]
pub enum Name {
    WrittenSize,
    WrittenSizeDelta,
    LogicalSize,
    RemoteSize,
    ResidentSize,
    SyntheticSize,
}

impl Name {
    /// The name of the metric on the wire.
    pub open spec fn text(self) -> Seq<char> {
        match self {
            Name::WrittenSize => "written_size"@,
            Name::WrittenSizeDelta => "written_data_bytes_delta"@,
            Name::LogicalSize => "timeline_logical_size"@,
            Name::RemoteSize => "remote_storage_size"@,
            Name::ResidentSize => "resident_size"@,
            Name::SyntheticSize => "synthetic_storage_size"@,
        }
    }

    pub fn as_str(&self) -> (r: &'static str)
        ensures
            r@ == self.text(),
    {
        match self {
            Name::WrittenSize => "written_size",
            Name::WrittenSizeDelta => "written_data_bytes_delta",
            Name::LogicalSize => "timeline_logical_size",
            Name::RemoteSize => "remote_storage_size",
            Name::ResidentSize => "resident_size",
            Name::SyntheticSize => "synthetic_storage_size",
        }
    }
}

/// When a fact holds: at one instant, or over an interval.
#[derive(Clone, Copy, Debug, PartialEq, Eq, Structural)]
pub enum EventType {
    Absolute { time: Timestamp },
    Incremental { start_time: Timestamp, stop_time: Timestamp },
}

impl EventType {
    /// The instant a fact was recorded at: its time, or the end of its interval.
    pub open spec fn recorded_at(self) -> Timestamp {
        match self {
            EventType::Absolute { time } => time,
            EventType::Incremental { stop_time, .. } => stop_time,
        }
    }

    pub fn recorded_at_time(&self) -> (r: Timestamp)
        ensures
            r == self.recorded_at(),
    {
        match self {
            EventType::Absolute { time } => *time,
            EventType::Incremental { stop_time, .. } => *stop_time,
        }
    }

    /// An interval never ends before it starts.
    pub open spec fn well_formed(self) -> bool {
        match self {
            EventType::Absolute { .. } => true,
            EventType::Incremental { start_time, stop_time } => start_time.nanos <= stop_time.nanos,
        }
    }
}

/// Which metric of which tenant, and of which of its timelines if any.
#[derive(Clone, Copy, Debug, PartialEq, Eq)]
pub struct MetricsKey {
    pub tenant_id: TenantId,
    pub timeline_id: Option<TimelineId>,
    pub metric: Name,
}

/// A metric with the time and value of one of its facts.
pub type MetricItem = (MetricsKey, (EventType, u64));

impl MetricsKey {
    pub open spec fn of_timeline(tenant_id: TenantId, timeline_id: TimelineId, metric: Name) -> MetricsKey {
        MetricsKey { tenant_id, timeline_id: Some(timeline_id), metric }
    }

    pub open spec fn of_tenant(tenant_id: TenantId, metric: Name) -> MetricsKey {
        MetricsKey { tenant_id, timeline_id: None, metric }
    }

    pub fn written_size(tenant_id: TenantId, timeline_id: TimelineId) -> (r: MetricsKey)
        ensures
            r == MetricsKey::of_timeline(tenant_id, timeline_id, Name::WrittenSize),
    {
        MetricsKey { tenant_id, timeline_id: Some(timeline_id), metric: Name::WrittenSize }
    }

    pub fn written_size_delta(tenant_id: TenantId, timeline_id: TimelineId) -> (r: MetricsKey)
        ensures
            r == MetricsKey::of_timeline(tenant_id, timeline_id, Name::WrittenSizeDelta),
    {
        MetricsKey { tenant_id, timeline_id: Some(timeline_id), metric: Name::WrittenSizeDelta }
    }

    pub fn timeline_logical_size(tenant_id: TenantId, timeline_id: TimelineId) -> (r: MetricsKey)
        ensures
            r == MetricsKey::of_timeline(tenant_id, timeline_id, Name::LogicalSize),
    {
        MetricsKey { tenant_id, timeline_id: Some(timeline_id), metric: Name::LogicalSize }
    }

    pub fn remote_storage_size(tenant_id: TenantId) -> (r: MetricsKey)
        ensures
            r == MetricsKey::of_tenant(tenant_id, Name::RemoteSize),
    {
        MetricsKey { tenant_id, timeline_id: None, metric: Name::RemoteSize }
    }

    pub fn resident_size(tenant_id: TenantId) -> (r: MetricsKey)
        ensures
            r == MetricsKey::of_tenant(tenant_id, Name::ResidentSize),
    {
        MetricsKey { tenant_id, timeline_id: None, metric: Name::ResidentSize }
    }

    pub fn synthetic_size(tenant_id: TenantId) -> (r: MetricsKey)
        ensures
            r == MetricsKey::of_tenant(tenant_id, Name::SyntheticSize),
    {
        MetricsKey { tenant_id, timeline_id: None, metric: Name::SyntheticSize }
    }

    /// A fact of this metric that holds at `time`.
    pub fn at(self, time: Timestamp, value: u64) -> (r: MetricItem)
        ensures
            r == (self, (EventType::Absolute { time }, value)),
    {
        (self, (EventType::Absolute { time }, value))
    }

    /// A fact of this metric over the interval from `start_time` to `stop_time`.
    pub fn from_previous_up_to(self, start_time: Timestamp, stop_time: Timestamp, value: u64) -> (r: MetricItem)
        requires
            start_time.nanos <= stop_time.nanos,
        ensures
            r == (self, (EventType::Incremental { start_time, stop_time }, value)),
    {
        (self, (EventType::Incremental { start_time, stop_time }, value))
    }
}

pub fn same_key(a: &MetricsKey, b: &MetricsKey) -> (r: bool)
    ensures
        r == (*a == *b),
{
    same_tenant(&a.tenant_id, &b.tenant_id) && same_timeline(&a.timeline_id, &b.timeline_id)
        && a.metric == b.metric
}

/// The last fact recorded for `key` among `entries`, if any.
pub open spec fn lookup(entries: Seq<MetricItem>, key: MetricsKey) -> Option<(EventType, u64)>
    decreases entries.len(),
{
    if entries.len() == 0 {
        None
    } else if entries.last().0 == key {
        Some(entries.last().1)
    } else {
        lookup(entries.drop_last(), key)
    }
}

/// No two entries have the same key.
pub open spec fn keys_unique(entries: Seq<MetricItem>) -> bool {
    forall|i: int, j: int| 0 <= i < j < entries.len() ==> entries[i].0 != entries[j].0
}

/// Among entries of distinct keys, the fact recorded for a key is the one of its entry.
pub proof fn lemma_lookup_unique(entries: Seq<MetricItem>, key: MetricsKey)
    requires
        keys_unique(entries),
    ensures
        forall|i: int| 0 <= i < entries.len() && entries[i].0 == key ==> lookup(entries, key) == Some(#[trigger] entries[i].1),
        (forall|i: int| 0 <= i < entries.len() ==> (#[trigger] entries[i]).0 != key) ==> lookup(entries, key) is None,
    decreases entries.len(),
{
    if entries.len() > 0 {
        let rest = entries.drop_last();
        assert(keys_unique(rest));
        lemma_lookup_unique(rest, key);
        assert forall|i: int| 0 <= i < entries.len() && entries[i].0 == key implies lookup(entries, key) == Some(#[trigger] entries[i].1) by {
            if i < entries.len() - 1 {
                assert(rest[i] == entries[i]);
            }
        }
        if forall|i: int| 0 <= i < entries.len() ==> (#[trigger] entries[i]).0 != key {
            assert forall|i: int| 0 <= i < rest.len() implies (#[trigger] rest[i]).0 != key by {
                assert(rest[i] == entries[i]);
            }
            assert(entries[entries.len() - 1].0 != key);
        }
    }
}

/// The facts emitted in earlier rounds: one entry per key, the last fact recorded for it.
pub struct Cache {
    entries: Vec<MetricItem>,
}

impl Cache {
    #[verifier::type_invariant]
    spec fn one_entry_per_key(self) -> bool {
        keys_unique(self.entries@)
    }

    /// The fact recorded for `key`, if any.
    pub closed spec fn get_spec(&self, key: MetricsKey) -> Option<(EventType, u64)> {
        lookup(self.entries@, key)
    }

    /// `self` holds what `before` held, where each fact of `items` replaced what was recorded
    /// for its key, later facts replacing earlier ones.
    pub open spec fn carries(self, before: Cache, items: Seq<MetricItem>) -> bool {
        forall|key: MetricsKey| #[trigger] self.get_spec(key) == (match lookup(items, key) {
            Some(f) => Some(f),
            None => before.get_spec(key),
        })
    }

    pub fn new() -> (r: Cache)
        ensures
            forall|key: MetricsKey| #[trigger] r.get_spec(key) is None,
    {
        Cache { entries: Vec::new() }
    }

    /// A cache holding the facts of `items`, later facts replacing earlier ones of the same key.
    pub fn from_items(items: Vec<MetricItem>) -> (r: Cache)
        ensures
            forall|key: MetricsKey| #[trigger] r.get_spec(key) == lookup(items@, key),
    {
        let mut r = Cache::new();
        r.extend(items);
        r
    }

    /// Records `item`, replacing what was recorded for its key.
    pub fn insert(&mut self, item: MetricItem)
        ensures
            forall|key: MetricsKey| #[trigger] final(self).get_spec(key) == if key == item.0 {
                Some(item.1)
            } else {
                old(self).get_spec(key)
            },
    {
        proof {
            use_type_invariant(&*self);
        }
        let mut entries: Vec<MetricItem> = Vec::new();
        std::mem::swap(&mut self.entries, &mut entries);
        let ghost before = entries@;
        let n = entries.len();
        let mut i: usize = 0;
        while i < n
            invariant
                i <= n,
                n == entries@.len(),
                entries@ == before,
                keys_unique(before),
                forall|j: int| 0 <= j < i ==> (#[trigger] before[j]).0 != item.0,
            ensures
                i <= n,
                i < n ==> before[i as int].0 == item.0,
                forall|j: int| 0 <= j < i ==> (#[trigger] before[j]).0 != item.0,
            decreases n - i,
        {
            if same_key(&entries[i].0, &item.0) {
                break;
            }
            i = i + 1;
        }
        if i < n {
            entries.set(i, item);
        } else {
            entries.push(item);
        }
        let ghost after = entries@;
        proof {
            assert forall|a: int, b: int| 0 <= a < b < after.len() implies after[a].0 != after[b].0 by {
                if a != i && b != i {
                    assert(after[a] == before[a] && after[b] == before[b]);
                } else if a == i {
                    assert(after[b] == before[b]);
                } else {
                    assert(after[a] == before[a]);
                }
            }
            assert(keys_unique(after));
            lemma_lookup_unique(before, item.0);
            lemma_lookup_unique(after, item.0);
            assert(after[i as int] == item);
            assert forall|key: MetricsKey| #[trigger] lookup(after, key) == if key == item.0 {
                Some(item.1)
            } else {
                lookup(before, key)
            } by {
                lemma_lookup_unique(before, key);
                lemma_lookup_unique(after, key);
                if key == item.0 {
                    assert(after[i as int].1 == item.1);
                } else {
                    if exists|j: int| 0 <= j < before.len() && before[j].0 == key {
                        let j = choose|j: int| 0 <= j < before.len() && before[j].0 == key;
                        assert(after[j] == before[j]);
                        assert(lookup(after, key) == Some(after[j].1));
                    } else {
                        assert forall|j: int| 0 <= j < before.len() implies (#[trigger] before[j]).0 != key by {}
                        assert forall|j: int| 0 <= j < after.len() implies (#[trigger] after[j]).0 != key by {
                            if j != i {
                                assert(after[j] == before[j]);
                            }
                        }
                    }
                }
            }
        }
        self.entries = entries;
    }

    /// Records the facts of `items` in order, each replacing what was recorded for its key.
    pub fn extend(&mut self, items: Vec<MetricItem>)
        ensures
            final(self).carries(*old(self), items@),
    {
        let ghost start = *self;
        let mut i: usize = 0;
        while i < items.len()
            invariant
                i <= items@.len(),
                self.carries(start, items@.subrange(0, i as int)),
            decreases items@.len() - i,
        {
            let item = items[i];
            self.insert(item);
            proof {
                let p = items@.subrange(0, i + 1);
                assert(p.drop_last() =~= items@.subrange(0, i as int));
                assert(p.last() == item);
                assert forall|key: MetricsKey| #[trigger] self.get_spec(key) == (match lookup(p, key) {
                    Some(f) => Some(f),
                    None => start.get_spec(key),
                }) by {}
            }
            i = i + 1;
        }
        assert(items@.subrange(0, items@.len() as int) =~= items@);
    }

    pub fn get(&self, key: &MetricsKey) -> (r: Option<(EventType, u64)>)
        ensures
            r == self.get_spec(*key),
    {
        let mut i: usize = self.entries.len();
        assert(self.entries@.subrange(0, i as int) =~= self.entries@);
        while i > 0
            invariant
                i <= self.entries@.len(),
                self.get_spec(*key) == lookup(self.entries@.subrange(0, i as int), *key),
            decreases i,
        {
            let ghost p = self.entries@.subrange(0, i as int);
            assert(p.drop_last() =~= self.entries@.subrange(0, i - 1));
            if same_key(&self.entries[i - 1].0, key) {
                return Some(self.entries[i - 1].1);
            }
            i = i - 1;
        }
        None
    }
}

} // verus!
