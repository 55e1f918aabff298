//! The event log: a bounded, append-only record of settlement outcomes.
//!
//! Every resolution appends exactly one event; nothing else writes here.
//! The log is a ring: once the configured capacity is exceeded the oldest
//! entry is evicted.  Queries return slices in chronological order, oldest
//! first — the convention every query of this crate follows.

use vstd::prelude::*;
use crate::asset::{AccountId, TokenType};

verus! {

/// How many events a log built by `EventLog::with_default_capacity` keeps.
pub const DEFAULT_EVENT_CAPACITY: usize = 1000;

/// The outcome a settlement event records.
#[derive(Clone, Copy, PartialEq, Eq, Structural, Debug)]
pub enum EventKind {
    /// A deposit was confirmed: shares were minted, the reserve credited.
    Deposited,
    /// A withdrawal was confirmed: the earlier speculative burn stands.
    Withdrawn,
    /// An external leg failed; any speculative mutation was compensated.
    Failed,
}

/// One settlement outcome.  `share_delta` is the number of shares the
/// settlement minted or burned; zero for a failure.
#[derive(Clone, Copy, PartialEq, Eq, Structural, Debug)]
pub struct SettlementEvent {
    pub kind: EventKind,
    pub account: AccountId,
    pub asset: TokenType,
    pub amount: u128,
    pub share_delta: u128,
    pub timestamp: u64,
}

/// How `post` relates to `pre` after one append of `e`: the event stands at
/// the tail, and the oldest event is gone exactly if `pre` was full.
pub open spec fn log_appended(post: EventLog, pre: EventLog, e: SettlementEvent) -> bool {
    post.log() == if pre.log().len() < pre.capacity {
        pre.log().push(e)
    } else {
        pre.log().drop_first().push(e)
    }
}

/// A bounded append-only log of settlement events, oldest first.
pub struct EventLog {
    pub entries: Vec<SettlementEvent>,
    pub capacity: usize,
}

impl EventLog {
    /// The recorded events, oldest first.
    pub open spec fn log(self) -> Seq<SettlementEvent> {
        self.entries@
    }

    /// Well-formedness: a positive bound that the log never exceeds.
    pub open spec fn wf(self) -> bool {
        &&& self.capacity >= 1
        &&& self.entries@.len() <= self.capacity
    }

    /// An empty log that will keep at most `capacity` events.
    pub fn new(capacity: usize) -> (r: Self)
        requires
            capacity >= 1,
        ensures
            r.wf(),
            r.log() == Seq::<SettlementEvent>::empty(),
            r.capacity == capacity,
    {
        EventLog { entries: Vec::new(), capacity }
    }

    /// An empty log with the default bound.
    pub fn with_default_capacity() -> (r: Self)
        ensures
            r.wf(),
            r.log() == Seq::<SettlementEvent>::empty(),
            r.capacity == DEFAULT_EVENT_CAPACITY,
    {
        EventLog::new(DEFAULT_EVENT_CAPACITY)
    }

    /// The number of recorded events.
    pub fn len(&self) -> (r: usize)
        ensures
            r == self.log().len(),
    {
        self.entries.len()
    }

    /// Appends `e` at the tail; if the log is full, the oldest event is
    /// evicted first.
    pub fn append(&mut self, e: SettlementEvent)
        requires
            old(self).wf(),
        ensures
            final(self).wf(),
            final(self).capacity == old(self).capacity,
            final(self).log() == if old(self).log().len() < old(self).capacity {
                old(self).log().push(e)
            } else {
                old(self).log().drop_first().push(e)
            },
    {
        if self.entries.len() == self.capacity {
            let ghost before = self.entries@;
            self.entries.remove(0);
            proof {
                assert(self.entries@ =~= before.drop_first());
            }
        }
        self.entries.push(e);
    }

    /// The chronological slice that `query` returns: skip the `offset`
    /// newest events, then take up to `limit` of the newest remaining.
    pub open spec fn query_range(self, limit: usize, offset: usize) -> Seq<SettlementEvent> {
        let n: int = self.log().len() as int;
        let hi: int = if offset <= n { n - offset } else { 0 };
        let lo: int = if limit <= hi { hi - limit } else { 0 };
        self.log().subrange(lo, hi)
    }

    /// Returns up to `limit` of the most recent events, oldest first,
    /// ignoring the `offset` newest.
    pub fn query(&self, limit: usize, offset: usize) -> (r: Vec<SettlementEvent>)
        ensures
            r@ == self.query_range(limit, offset),
    {
        let n: usize = self.entries.len();
        let hi: usize = if offset <= n { n - offset } else { 0 };
        let lo: usize = if limit <= hi { hi - limit } else { 0 };
        let mut r: Vec<SettlementEvent> = Vec::new();
        let mut k: usize = lo;
        while k < hi
            invariant
                lo <= k <= hi <= self.entries@.len(),
                r@ == self.entries@.subrange(lo as int, k as int),
            decreases hi - k,
        {
            r.push(self.entries[k]);
            proof {
                assert(r@ =~= self.entries@.subrange(lo as int, k + 1));
            }
            k = k + 1;
        }
        proof {
            assert(r@ =~= self.query_range(limit, offset));
        }
        r
    }
}

} // verus!
