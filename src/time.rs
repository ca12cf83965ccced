use vstd::prelude::*;

verus! {

/// A point in time, in nanoseconds since the epoch.
#[derive(Debug, Clone, Copy, PartialEq, Eq, Structural)]
pub struct Timestamp {
    pub nanos: u64,
}

pub const NANOS_PER_SECOND: u64 = 1_000_000_000;

impl Timestamp {
    /// The whole seconds since the epoch.
    pub open spec fn spec_seconds(self) -> nat {
        self.nanos as nat / NANOS_PER_SECOND as nat
    }

    pub fn seconds(&self) -> (r: u64)
        ensures
            r as nat == self.spec_seconds(),
    {
        self.nanos / NANOS_PER_SECOND
    }

    /// This time moved `secs` seconds later, or `None` where that does not fit.
    pub fn plus_seconds(&self, secs: u64) -> (r: Option<Timestamp>)
        ensures
            r.is_some() == (self.nanos + secs * NANOS_PER_SECOND <= u64::MAX),
            r.is_some() ==> r.unwrap().nanos == self.nanos + secs * NANOS_PER_SECOND,
    {
        let room = u64::MAX - self.nanos;
        let limit = room / NANOS_PER_SECOND;
        if secs > limit {
            proof {
                assert(secs as int * 1_000_000_000 > room as int) by (nonlinear_arith)
                    requires
                        secs as int > limit as int,
                        limit as int == room as int / 1_000_000_000,
                ;
            }
            None
        } else {
            proof {
                assert(secs as int * 1_000_000_000 <= room as int) by (nonlinear_arith)
                    requires
                        secs as int <= limit as int,
                        limit as int == room as int / 1_000_000_000,
                ;
            }
            Some(Timestamp { nanos: self.nanos + secs * NANOS_PER_SECOND })
        }
    }
}

/// The block that a call executes in: its height and its time.
#[derive(Debug, Clone, Copy, PartialEq, Eq, Structural)]
pub struct BlockInfo {
    pub height: u64,
    pub time: Timestamp,
}

/// When an approval or operator grant stops being valid.
#[derive(Debug, Clone, Copy, PartialEq, Eq, Structural)]
pub enum Expiration {
    /// Expires once the chain reaches this height.
    AtHeight(u64),
    /// Expires once block time reaches this time.
    AtTime(Timestamp),
    /// Never expires.
    Never {},
}

impl Expiration {
    pub open spec fn spec_is_expired(self, block: BlockInfo) -> bool {
        match self {
            Expiration::AtHeight(h) => block.height >= h,
            Expiration::AtTime(t) => block.time.nanos >= t.nanos,
            Expiration::Never {} => false,
        }
    }

    /// Whether this expiry has been reached at `block`; `Never` is never reached.
    pub fn is_expired(&self, block: &BlockInfo) -> (r: bool)
        ensures
            r == self.spec_is_expired(*block),
    {
        match self {
            Expiration::AtHeight(h) => block.height >= *h,
            Expiration::AtTime(t) => block.time.nanos >= t.nanos,
            Expiration::Never {} => false,
        }
    }
}

/// The given expiry, or `Never` where none is given.
pub open spec fn expiry_or_never(e: Option<Expiration>) -> Expiration {
    match e {
        Some(x) => x,
        None => Expiration::Never {},
    }
}

/// The expiry used where a caller gives none: `Never`.
#[verifier::when_used_as_spec(expiry_or_never)]
pub fn expiration_or_default(e: Option<Expiration>) -> (r: Expiration)
    ensures
        r == expiry_or_never(e),
{
    match e {
        Some(x) => x,
        None => Expiration::Never {},
    }
}

} // verus!
