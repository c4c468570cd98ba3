use vstd::prelude::*;
use vstd::string::*;

use crate::ids::{TenantId, TimelineId, Timestamp};
use crate::metrics::{EventType, Name};
use crate::text::{
    decimal, decimal_text, hex_text, json_escape, json_escaped, padded4, padded4_text, rfc3339_nanos, rfc3339_text, utc_display,
    utc_display_text,
};

verus! {

/// What lets a receiver recognise a fact that was delivered twice: the instant of the fact,
/// the node that sent it and a sequence number of the sender's.
pub struct IdempotencyKey {
    pub time: Timestamp,
    pub node_id: String,
    pub nonce: u16,
}

/// The text of an idempotency key: `<instant> UTC-<node>-<sequence of at least four digits>`.
pub open spec fn key_text(nanos: int, node_id: Seq<char>, nonce: nat) -> Seq<char> {
    utc_display_text(nanos) + "-"@ + node_id + "-"@ + padded4_text(nonce)
}

impl IdempotencyKey {
    pub fn new(time: Timestamp, node_id: &str, nonce: u16) -> (r: IdempotencyKey)
        ensures
            r.time == time,
            r.node_id@ == node_id@,
            r.nonce == nonce,
    {
        IdempotencyKey { time, node_id: String::from_str(node_id), nonce }
    }

    pub fn to_string(&self) -> (r: String)
        ensures
            r@ == key_text(self.time.nanos as int, self.node_id@, self.nonce as nat),
    {
        let mut r = utc_display(self.time.nanos);
        r.append("-");
        r.append(self.node_id.as_str());
        r.append("-");
        r.append(padded4(self.nonce).as_str());
        r
    }
}

/// One fact as it is sent.
pub struct Event {
    pub kind: EventType,
    pub metric: Name,
    pub idempotency_key: String,
    pub value: u64,
    pub tenant_id: TenantId,
    pub timeline_id: Option<TimelineId>,
}

pub open spec fn kind_json(kind: EventType) -> Seq<char> {
    match kind {
        EventType::Absolute { time } => "\"absolute\",\"time\":\""@ + rfc3339_text(time.nanos as int)
            + "\""@,
        EventType::Incremental { start_time, stop_time } => "\"incremental\",\"start_time\":\""@
            + rfc3339_text(start_time.nanos as int) + "\",\"stop_time\":\""@ + rfc3339_text(
            stop_time.nanos as int,
        ) + "\""@,
    }
}

pub open spec fn timeline_json(timeline_id: Option<TimelineId>) -> Seq<char> {
    match timeline_id {
        Some(t) => ",\"timeline_id\":\""@ + hex_text(t.0@) + "\""@,
        None => Seq::empty(),
    }
}

impl Event {
    /// The JSON object of the event, with its fields in a fixed order: type, time or interval,
    /// metric, idempotency key, value, tenant and, for a timeline's metric, timeline.
    pub open spec fn json(self) -> Seq<char> {
        "{\"type\":"@ + kind_json(self.kind) + ",\"metric\":\""@ + self.metric.text()
            + "\",\"idempotency_key\":\""@ + json_escaped(self.idempotency_key@) + "\",\"value\":"@
            + decimal_text(self.value as nat) + ",\"tenant_id\":\""@ + hex_text(self.tenant_id.0@)
            + "\""@ + timeline_json(self.timeline_id) + "}"@
    }

    pub fn to_json(&self) -> (r: String)
        requires
            self.kind.well_formed(),
        ensures
            r@ == self.json(),
    {
        let mut r = String::from_str("{\"type\":");
        match self.kind {
            EventType::Absolute { time } => {
                r.append("\"absolute\",\"time\":\"");
                r.append(rfc3339_nanos(time.nanos).as_str());
                r.append("\"");
            },
            EventType::Incremental { start_time, stop_time } => {
                r.append("\"incremental\",\"start_time\":\"");
                r.append(rfc3339_nanos(start_time.nanos).as_str());
                r.append("\",\"stop_time\":\"");
                r.append(rfc3339_nanos(stop_time.nanos).as_str());
                r.append("\"");
            },
        }
        r.append(",\"metric\":\"");
        r.append(self.metric.as_str());
        r.append("\",\"idempotency_key\":\"");
        r.append(json_escape(self.idempotency_key.as_str()).as_str());
        r.append("\",\"value\":");
        r.append(decimal(self.value).as_str());
        r.append(",\"tenant_id\":\"");
        r.append(self.tenant_id.to_hex().as_str());
        r.append("\"");
        match self.timeline_id {
            Some(t) => {
                r.append(",\"timeline_id\":\"");
                r.append(t.to_hex().as_str());
                r.append("\"");
            },
            None => {},
        }
        r.append("}");
        assert(r@ =~= self.json());
        r
    }
}

} // verus!
