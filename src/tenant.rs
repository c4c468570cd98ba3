use vstd::prelude::*;

use crate::ids::{TenantId, Timestamp};
use crate::metrics::{Cache, EventType, MetricItem, MetricsKey, Name};

verus! {

/// What is known of one tenant in one collection round.
#[derive(Clone, Copy, Debug)]
pub struct TenantSnapshot {
    pub resident_size: u64,
    pub remote_size: u64,
    /// The synthetic size; zero while it has not been computed.
    pub synthetic_size: u64,
}

impl TenantSnapshot {
    /// The synthetic size to report: this round's where computed, else the last one reported.
    pub open spec fn synthetic(self, tenant_id: TenantId, cache: Cache) -> Option<u64> {
        if self.synthetic_size != 0 {
            Some(self.synthetic_size)
        } else {
            match cache.get_spec(MetricsKey::of_tenant(tenant_id, Name::SyntheticSize)) {
                Some((_, v)) => Some(v),
                None => None,
            }
        }
    }

    /// The facts of one round, in order: remote size, resident size, and the synthetic size
    /// where there is one.
    pub open spec fn events(self, tenant_id: TenantId, now: Timestamp, cache: Cache) -> Seq<MetricItem> {
        let sizes = seq![
            (MetricsKey::of_tenant(tenant_id, Name::RemoteSize),
                (EventType::Absolute { time: now }, self.remote_size)),
            (MetricsKey::of_tenant(tenant_id, Name::ResidentSize),
                (EventType::Absolute { time: now }, self.resident_size)),
        ];
        match self.synthetic(tenant_id, cache) {
            Some(v) => sizes.push(
                (MetricsKey::of_tenant(tenant_id, Name::SyntheticSize),
                    (EventType::Absolute { time: now }, v)),
            ),
            None => sizes,
        }
    }

    /// Appends this round's facts for the tenant to `metrics`.
    pub fn to_metrics(&self, tenant_id: TenantId, now: Timestamp, cached: &Cache, metrics: &mut Vec<MetricItem>)
        ensures
            final(metrics)@ == old(metrics)@ + self.events(tenant_id, now, *cached),
    {
        metrics.push(MetricsKey::remote_storage_size(tenant_id).at(now, self.remote_size));
        metrics.push(MetricsKey::resident_size(tenant_id).at(now, self.resident_size));
        let synthetic = if self.synthetic_size != 0 {
            Some(self.synthetic_size)
        } else {
            match cached.get(&MetricsKey::synthetic_size(tenant_id)) {
                Some((_, v)) => Some(v),
                None => None,
            }
        };
        if let Some(v) = synthetic {
            metrics.push(MetricsKey::synthetic_size(tenant_id).at(now, v));
        }
        assert(metrics@ =~= old(metrics)@ + self.events(tenant_id, now, *cached));
    }
}


/// A synthetic size is sent exactly when this round computed one or an earlier round reported one.
pub proof fn lemma_synthetic_size_sent_iff_known(snap: TenantSnapshot, tenant_id: TenantId, now: Timestamp, cache: Cache)
    ensures
        (exists|i: int|
            0 <= i < snap.events(tenant_id, now, cache).len()
                && (#[trigger] snap.events(tenant_id, now, cache)[i]).0.metric == Name::SyntheticSize)
            <==> (snap.synthetic_size != 0 || cache.get_spec(
            MetricsKey::of_tenant(tenant_id, Name::SyntheticSize),
        ) is Some),
{
    let out = snap.events(tenant_id, now, cache);
    if snap.synthetic(tenant_id, cache) is Some {
        assert(out[2].0.metric == Name::SyntheticSize);
    }
}

} // verus!
