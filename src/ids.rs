use vstd::prelude::*;

use crate::text::{hex16, hex_text};

verus! {

/// Identifies a tenant: sixteen opaque bytes.
#[derive(Clone, Copy, Debug, PartialEq, Eq, Hash)]
pub struct TenantId(pub [u8; 16]);

/// Identifies a timeline of a tenant: sixteen opaque bytes.
#[derive(Clone, Copy, Debug, PartialEq, Eq, Hash)]
pub struct TimelineId(pub [u8; 16]);

/// A write position in the log; its value stands for the bytes written up to it.
#[derive(Clone, Copy, Debug, PartialEq, Eq, Structural)]
pub struct Lsn(pub u64);

/// An instant, in nanoseconds since the Unix epoch (UTC).
#[derive(Clone, Copy, Debug, PartialEq, Eq, Structural)]
pub struct Timestamp {
    pub nanos: i64,
}

impl TenantId {
    pub fn from_array(b: [u8; 16]) -> (r: TenantId)
        ensures
            r.0 == b,
    {
        TenantId(b)
    }

    /// The 32 lower-case hexadecimal digits of the id.
    pub fn to_hex(&self) -> (r: String)
        ensures
            r@ == hex_text(self.0@),
    {
        hex16(&self.0)
    }
}

impl TimelineId {
    pub fn from_array(b: [u8; 16]) -> (r: TimelineId)
        ensures
            r.0 == b,
    {
        TimelineId(b)
    }

    /// The 32 lower-case hexadecimal digits of the id.
    pub fn to_hex(&self) -> (r: String)
        ensures
            r@ == hex_text(self.0@),
    {
        hex16(&self.0)
    }
}

impl Timestamp {
    pub fn from_nanos(nanos: i64) -> (r: Timestamp)
        ensures
            r.nanos == nanos,
    {
        Timestamp { nanos }
    }
}

/// `N` instants one second apart, the first being `now`, each following one a second earlier.
pub fn time_backwards<const N: usize>(now: Timestamp) -> (r: [Timestamp; N])
    requires
        N >= 1,
        now.nanos - (N as int - 1) * 1_000_000_000 >= i64::MIN,
    ensures
        forall|i: int| 0 <= i < N ==> (#[trigger] r[i]).nanos == now.nanos - i * 1_000_000_000,
{
    let mut times: [Timestamp; N] = vstd::array::array_fill_for_copy_types(now);
    let mut behind: usize = 0;
    while behind < N
        invariant
            behind <= N,
            times@.len() == N,
            now.nanos - (N as int - 1) * 1_000_000_000 >= i64::MIN,
            forall|i: int| 0 <= i < behind ==> (#[trigger] times[i]).nanos == now.nanos - i * 1_000_000_000,
        decreases N - behind,
    {
        proof {
            assert(behind * 1_000_000_000 <= (N - 1) * 1_000_000_000) by (nonlinear_arith)
                requires behind < N;
        }
        let back: i128 = behind as i128 * 1_000_000_000;
        times[behind] = Timestamp { nanos: (now.nanos as i128 - back) as i64 };
        behind = behind + 1;
    }
    times
}

pub fn same_bytes(a: &[u8; 16], b: &[u8; 16]) -> (r: bool)
    ensures
        r == (*a == *b),
{
    let mut i: usize = 0;
    while i < 16
        invariant
            i <= 16,
            a@.len() == 16,
            b@.len() == 16,
            forall|j: int| 0 <= j < i ==> a@[j] == b@[j],
        decreases 16 - i,
    {
        if a[i] != b[i] {
            return false;
        }
        i = i + 1;
    }
    proof {
        broadcast use vstd::array::group_array_axioms;
        assert(forall|j: int| 0 <= j < 16 ==> a[j] == b[j]);
        assert(*a =~= *b);
    }
    true
}

pub fn same_tenant(a: &TenantId, b: &TenantId) -> (r: bool)
    ensures
        r == (*a == *b),
{
    same_bytes(&a.0, &b.0)
}

pub fn same_timeline(a: &Option<TimelineId>, b: &Option<TimelineId>) -> (r: bool)
    ensures
        r == (*a == *b),
{
    match (a, b) {
        (Some(x), Some(y)) => same_bytes(&x.0, &y.0),
        (None, None) => true,
        _ => false,
    }
}

} // verus!
