//! Properties of the store that relate several of its operations.
use vstd::prelude::*;
use crate::records::{TicketStatus, TicketType, TicketView};
use crate::service::{
    has_ticket, has_user, ticket_index, ticket_ok, user_at, user_index, TicketService,
};
use crate::stats::{describes, mean_resolution, TicketStats};

verus! {

/// No stored user or ticket has identifier 0 or an identifier above the last
/// one handed out for its kind. So the identifier that the next creation
/// hands out (one past the last) is not in use, even after deletions, and a
/// ticket naming a user identifier that no creation returned is refused.
pub proof fn law_unissued_ids_absent(s: TicketService, id: u64)
    requires
        s.wf(),
    ensures
        id == 0 || id > s.issued_users() ==> !has_user(s.users_view(), id),
        id == 0 || id > s.issued_tickets() ==> !has_ticket(s.tickets_view(), id),
{
    if has_user(s.users_view(), id) {
        let i = choose|i: int| crate::service::user_at(s.users_view(), id, i);
        assert(1 <= s.users_view()[i].id <= s.issued_users());
    }
    if has_ticket(s.tickets_view(), id) {
        let i = choose|i: int| crate::service::ticket_at(s.tickets_view(), id, i);
        assert(1 <= s.tickets_view()[i].id <= s.issued_tickets());
    }
}

/// Deleting a user removes that user and nothing else: afterwards no user has
/// its identifier, while every ticket, including those that it wrote or is
/// assigned, keeps naming it.
pub proof fn law_user_deletion_leaves_references(
    before: TicketService,
    after: TicketService,
    id: u64,
)
    requires
        before.wf(),
        has_user(before.users_view(), id),
        after.users_view() == before.users_view().remove(user_index(before.users_view(), id)),
        after.tickets_view() == before.tickets_view(),
    ensures
        !has_user(after.users_view(), id),
        forall|i: int|
            0 <= i < after.tickets_view().len() ==> (#[trigger] after.tickets_view()[i]).created_by
                == before.tickets_view()[i].created_by && after.tickets_view()[i].assignee_id
                == before.tickets_view()[i].assignee_id,
{
    let o = before.users_view();
    let k = user_index(o, id);
    let s = after.users_view();
    assert(user_at(o, id, k));
    if has_user(s, id) {
        let j = choose|j: int| user_at(s, id, j);
        let oj = if j < k { j } else { j + 1 };
        assert(s[j] == o[oj]);
        if oj < k {
            assert(o[oj].id < o[k].id);
        } else {
            assert(o[k].id < o[oj].id);
        }
    }
}

/// After a ticket `t` is created on `before`, giving `after`, looking up
/// `t.id` on `after` finds exactly `t`.
pub proof fn law_created_ticket_found(before: TicketService, after: TicketService, t: TicketView)
    requires
        before.wf(),
        after.wf(),
        t.id == before.issued_tickets() + 1,
        after.tickets_view() == before.tickets_view().push(t),
    ensures
        has_ticket(after.tickets_view(), t.id),
        after.tickets_view()[ticket_index(after.tickets_view(), t.id)] == t,
{
    let s = after.tickets_view();
    let n = before.tickets_view().len() as int;
    assert(crate::service::ticket_at(s, t.id, n));
    let c = ticket_index(s, t.id);
    assert(c == n) by {
        if c < n {
            assert(s[c] == before.tickets_view()[c]);
            assert(s[c].id <= before.issued_tickets());
        }
    }
}

/// In a well-formed store every resolved ticket was resolved no earlier than
/// it was created, and its last update is no earlier than its creation.
pub proof fn law_resolution_after_creation(s: TicketService, id: u64)
    requires
        s.wf(),
        has_ticket(s.tickets_view(), id),
    ensures
        ({
            let t = s.tickets_view()[ticket_index(s.tickets_view(), id)];
            &&& t.created_at <= t.updated_at
            &&& t.resolved_at matches Some(r) ==> t.created_at <= r
        }),
{
    let i = ticket_index(s.tickets_view(), id);
    assert(ticket_ok(s.tickets_view()[i], s.latest_time()));
}

/// The messages of a stored ticket are numbered `1, 2, ...` in the order
/// they were added, so the `n`-th message added has identifier `n`.
pub proof fn law_message_numbering(s: TicketService, id: u64, k: int)
    requires
        s.wf(),
        has_ticket(s.tickets_view(), id),
        0 <= k < s.tickets_view()[ticket_index(s.tickets_view(), id)].messages.len(),
    ensures
        s.tickets_view()[ticket_index(s.tickets_view(), id)].messages[k].id == k + 1,
{
    let i = ticket_index(s.tickets_view(), id);
    assert(ticket_ok(s.tickets_view()[i], s.latest_time()));
}

/// The figures of an empty ticket list are all zero.
pub proof fn law_stats_of_nothing(r: TicketStats)
    requires
        describes(r, Seq::<TicketView>::empty()),
    ensures
        r.total == 0,
        r.by_status.open == 0,
        r.by_status.in_progress == 0,
        r.by_status.on_hold == 0,
        r.by_status.resolved == 0,
        r.by_status.closed == 0,
        r.by_type.bug == 0,
        r.by_type.feature == 0,
        r.by_type.support == 0,
        r.by_type.maintenance == 0,
        r.by_type.other == 0,
        r.avg_resolution_time_ns == 0,
{
    assert(r.by_status.spec_get(TicketStatus::Open) == 0);
    assert(r.by_status.spec_get(TicketStatus::InProgress) == 0);
    assert(r.by_status.spec_get(TicketStatus::OnHold) == 0);
    assert(r.by_status.spec_get(TicketStatus::Resolved) == 0);
    assert(r.by_status.spec_get(TicketStatus::Closed) == 0);
    assert(r.by_type.spec_get(TicketType::Bug) == 0);
    assert(r.by_type.spec_get(TicketType::Feature) == 0);
    assert(r.by_type.spec_get(TicketType::Support) == 0);
    assert(r.by_type.spec_get(TicketType::Maintenance) == 0);
    assert(r.by_type.spec_get(TicketType::Other) == 0);
    assert(mean_resolution(Seq::<TicketView>::empty()) == 0);
}

/// The figures of a single resolved ticket: one ticket, counted under its
/// status and type, with a mean resolution time equal to its own.
pub proof fn law_stats_of_one_resolved(r: TicketStats, t: TicketView, at: u64)
    requires
        describes(r, seq![t]),
        t.resolved_at == Some(at),
        t.created_at <= at,
    ensures
        r.total == 1,
        r.by_status.spec_get(t.status) == 1,
        r.by_type.spec_get(t.ticket_type) == 1,
        r.avg_resolution_time_ns == at - t.created_at,
{
    let s = seq![t];
    assert(s.drop_last() =~= Seq::<TicketView>::empty());
    assert(s.last() == t);
    assert(crate::stats::resolved_count(s.drop_last()) == 0);
    assert(crate::stats::resolution_sum(s.drop_last()) == 0);
    assert(crate::stats::count_status(s.drop_last(), t.status) == 0);
    assert(crate::stats::count_type(s.drop_last(), t.ticket_type) == 0);
    assert(r.by_status.spec_get(t.status) == crate::stats::count_status(s, t.status));
    assert(r.by_type.spec_get(t.ticket_type) == crate::stats::count_type(s, t.ticket_type));
    assert(crate::stats::resolved_count(s) == 1);
    assert(crate::stats::resolution_sum(s) == at - t.created_at);
}

} // verus!
