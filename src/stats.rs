//! Aggregate figures over a list of tickets.
use vstd::prelude::*;
use crate::records::{Ticket, TicketStatus, TicketType, TicketView};

verus! {

/// How many tickets of `s` have status `st`.
pub open spec fn count_status(s: Seq<TicketView>, st: TicketStatus) -> nat
    decreases s.len(),
{
    if s.len() == 0 {
        0
    } else {
        count_status(s.drop_last(), st) + if s.last().status == st {
            1nat
        } else {
            0nat
        }
    }
}

/// How many tickets of `s` have type `k`.
pub open spec fn count_type(s: Seq<TicketView>, k: TicketType) -> nat
    decreases s.len(),
{
    if s.len() == 0 {
        0
    } else {
        count_type(s.drop_last(), k) + if s.last().ticket_type == k {
            1nat
        } else {
            0nat
        }
    }
}

/// How many tickets of `s` carry a resolution time.
pub open spec fn resolved_count(s: Seq<TicketView>) -> nat
    decreases s.len(),
{
    if s.len() == 0 {
        0
    } else {
        resolved_count(s.drop_last()) + if s.last().resolved_at is Some {
            1nat
        } else {
            0nat
        }
    }
}

/// The time from creation to resolution, summed over the resolved tickets of `s`.
pub open spec fn resolution_sum(s: Seq<TicketView>) -> int
    decreases s.len(),
{
    if s.len() == 0 {
        0
    } else {
        resolution_sum(s.drop_last()) + match s.last().resolved_at {
            Some(r) => r - s.last().created_at,
            None => 0,
        }
    }
}

/// The mean time from creation to resolution over the resolved tickets of
/// `s`, rounded down; 0 when none is resolved.
pub open spec fn mean_resolution(s: Seq<TicketView>) -> int {
    if resolved_count(s) == 0 {
        0
    } else {
        resolution_sum(s) / resolved_count(s) as int
    }
}

/// No ticket of `s` was resolved before it was created.
pub open spec fn resolutions_ordered(s: Seq<TicketView>) -> bool {
    forall|i: int|
        0 <= i < s.len() ==> ((#[trigger] s[i]).resolved_at matches Some(r) ==> s[i].created_at
            <= r)
}

/// Ticket counts by status.
#[derive(Clone, Copy, Debug, PartialEq, Eq, Structural)]
pub struct StatusCounts {
    pub open: u64,
    pub in_progress: u64,
    pub on_hold: u64,
    pub resolved: u64,
    pub closed: u64,
}

/// Ticket counts by type; a type with count 0 has no ticket.
#[derive(Clone, Copy, Debug, PartialEq, Eq, Structural)]
pub struct TypeCounts {
    pub bug: u64,
    pub feature: u64,
    pub support: u64,
    pub maintenance: u64,
    pub other: u64,
}

impl StatusCounts {
    pub open spec fn spec_get(self, st: TicketStatus) -> u64 {
        match st {
            TicketStatus::Open => self.open,
            TicketStatus::InProgress => self.in_progress,
            TicketStatus::OnHold => self.on_hold,
            TicketStatus::Resolved => self.resolved,
            TicketStatus::Closed => self.closed,
        }
    }

    /// The count for status `st`.
    #[verifier::when_used_as_spec(spec_get)]
    pub fn get(self, st: TicketStatus) -> (r: u64)
        ensures
            r == self.spec_get(st),
    {
        match st {
            TicketStatus::Open => self.open,
            TicketStatus::InProgress => self.in_progress,
            TicketStatus::OnHold => self.on_hold,
            TicketStatus::Resolved => self.resolved,
            TicketStatus::Closed => self.closed,
        }
    }
}

impl TypeCounts {
    pub open spec fn spec_get(self, k: TicketType) -> u64 {
        match k {
            TicketType::Bug => self.bug,
            TicketType::Feature => self.feature,
            TicketType::Support => self.support,
            TicketType::Maintenance => self.maintenance,
            TicketType::Other => self.other,
        }
    }

    /// The count for type `k`.
    #[verifier::when_used_as_spec(spec_get)]
    pub fn get(self, k: TicketType) -> (r: u64)
        ensures
            r == self.spec_get(k),
    {
        match k {
            TicketType::Bug => self.bug,
            TicketType::Feature => self.feature,
            TicketType::Support => self.support,
            TicketType::Maintenance => self.maintenance,
            TicketType::Other => self.other,
        }
    }
}

/// Figures computed over all stored tickets.
#[derive(Clone, Copy, Debug, PartialEq, Eq, Structural)]
pub struct TicketStats {
    pub total: u64,
    pub by_status: StatusCounts,
    pub by_type: TypeCounts,
    /// Mean time from creation to resolution over resolved tickets.
    pub avg_resolution_time_ns: u64,
}

/// The figures that `s` determines exactly.
pub open spec fn describes(r: TicketStats, s: Seq<TicketView>) -> bool {
    &&& r.total == s.len()
    &&& forall|st: TicketStatus| #[trigger] r.by_status.spec_get(st) == count_status(s, st)
    &&& forall|k: TicketType| #[trigger] r.by_type.spec_get(k) == count_type(s, k)
    &&& r.avg_resolution_time_ns == mean_resolution(s)
}

proof fn lemma_mean_fits(sum: int, n: int)
    requires
        0 < n,
        0 <= sum <= n * (u64::MAX as int),
    ensures
        0 <= sum / n <= u64::MAX,
{
    assert(0 <= sum / n <= u64::MAX) by (nonlinear_arith)
        requires
            0 < n,
            0 <= sum <= n * (u64::MAX as int),
    ;
}

proof fn lemma_sum_step(sum: int, n: int, d: int)
    requires
        0 <= sum <= n * (u64::MAX as int),
        0 <= d <= u64::MAX,
        0 <= n,
    ensures
        sum + d <= (n + 1) * (u64::MAX as int),
{
    assert(sum + d <= (n + 1) * (u64::MAX as int)) by (nonlinear_arith)
        requires
            0 <= sum <= n * (u64::MAX as int),
            0 <= d <= u64::MAX,
    ;
}

proof fn lemma_sum_bound(n: int)
    requires
        0 <= n <= u64::MAX,
    ensures
        n * (u64::MAX as int) <= u128::MAX,
{
    assert(n * (u64::MAX as int) <= u128::MAX) by (nonlinear_arith)
        requires
            0 <= n <= u64::MAX,
    ;
}

/// Counts the tickets of `tickets` by status and by type, and averages the
/// time from creation to resolution over the resolved ones, in one pass.
pub fn ticket_stats(tickets: &Vec<Ticket>) -> (r: TicketStats)
    requires
        resolutions_ordered(tickets@.map_values(|t: Ticket| t@)),
    ensures
        describes(r, tickets@.map_values(|t: Ticket| t@)),
{
    let ghost s = tickets@.map_values(|t: Ticket| t@);
    let mut by_status = StatusCounts { open: 0, in_progress: 0, on_hold: 0, resolved: 0, closed: 0 };
    let mut by_type = TypeCounts { bug: 0, feature: 0, support: 0, maintenance: 0, other: 0 };
    let mut n_resolved: u64 = 0;
    let mut sum: u128 = 0;
    let mut i: usize = 0;
    while i < tickets.len()
        invariant
            s == tickets@.map_values(|t: Ticket| t@),
            resolutions_ordered(s),
            i <= tickets@.len(),
            forall|st: TicketStatus| #[trigger] by_status.spec_get(st) == count_status(
                s.subrange(0, i as int),
                st,
            ),
            forall|st: TicketStatus| #[trigger] by_status.spec_get(st) <= i,
            forall|k: TicketType| #[trigger] by_type.spec_get(k) == count_type(
                s.subrange(0, i as int),
                k,
            ),
            forall|k: TicketType| #[trigger] by_type.spec_get(k) <= i,
            n_resolved == resolved_count(s.subrange(0, i as int)),
            n_resolved <= i,
            sum == resolution_sum(s.subrange(0, i as int)),
            sum <= n_resolved * (u64::MAX as int),
        decreases tickets@.len() - i,
    {
        let ghost pre = s.subrange(0, i as int);
        let ghost cur = s.subrange(0, i + 1);
        assert(cur.drop_last() =~= pre);
        assert(cur.last() == tickets@[i as int]@);
        let t = &tickets[i];
        let ghost bs0 = by_status;
        let ghost bt0 = by_type;
        assert(by_status.spec_get(t.status) <= i);
        assert(by_type.spec_get(t.ticket_type) <= i);
        match t.status {
            TicketStatus::Open => by_status.open = by_status.open + 1,
            TicketStatus::InProgress => by_status.in_progress = by_status.in_progress + 1,
            TicketStatus::OnHold => by_status.on_hold = by_status.on_hold + 1,
            TicketStatus::Resolved => by_status.resolved = by_status.resolved + 1,
            TicketStatus::Closed => by_status.closed = by_status.closed + 1,
        }
        match t.ticket_type {
            TicketType::Bug => by_type.bug = by_type.bug + 1,
            TicketType::Feature => by_type.feature = by_type.feature + 1,
            TicketType::Support => by_type.support = by_type.support + 1,
            TicketType::Maintenance => by_type.maintenance = by_type.maintenance + 1,
            TicketType::Other => by_type.other = by_type.other + 1,
        }
        match t.resolved_at {
            Some(at) => {
                assert(s[i as int].resolved_at == Some(at));
                let d = at - t.created_at;
                proof {
                    lemma_sum_step(sum as int, n_resolved as int, d as int);
                    lemma_sum_bound(n_resolved + 1);
                }
                sum = sum + d as u128;
                n_resolved = n_resolved + 1;
            },
            None => {},
        }
        assert forall|st: TicketStatus| #[trigger] by_status.spec_get(st) == count_status(cur, st)
            && by_status.spec_get(st) <= i + 1 by {
            assert(count_status(cur, st) == count_status(pre, st) + if cur.last().status == st {
                1nat
            } else {
                0nat
            });
            assert(bs0.spec_get(st) == count_status(pre, st));
        }
        assert forall|k: TicketType| #[trigger] by_type.spec_get(k) == count_type(cur, k)
            && by_type.spec_get(k) <= i + 1 by {
            assert(count_type(cur, k) == count_type(pre, k) + if cur.last().ticket_type == k {
                1nat
            } else {
                0nat
            });
            assert(bt0.spec_get(k) == count_type(pre, k));
        }
        i += 1;
    }
    assert(s.subrange(0, s.len() as int) =~= s);
    let avg: u64 = if n_resolved == 0 {
        0
    } else {
        proof {
            lemma_mean_fits(sum as int, n_resolved as int);
        }
        (sum / (n_resolved as u128)) as u64
    };
    TicketStats { total: tickets.len() as u64, by_status, by_type, avg_resolution_time_ns: avg }
}

} // verus!
