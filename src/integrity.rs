//! Checks that saved records keep the store's invariants, used when a store
//! is rebuilt from durable memory.
use vstd::prelude::*;
use crate::records::{messages_view, priority_in_range, Ticket, TicketMessage, User};
use crate::service::{messages_ok, ticket_ok, tickets_ok, users_ok};

verus! {

/// Whether saved users could have come from a store with these counters.
pub(crate) fn users_valid(users: &Vec<User>, issued: u64, now: u64) -> (r: bool)
    ensures
        r == users_ok(users@.map_values(|u: User| u@), issued, now),
{
    let ghost s = users@.map_values(|u: User| u@);
    let mut i: usize = 0;
    while i < users.len()
        invariant
            s == users@.map_values(|u: User| u@),
            i <= users@.len(),
            users_ok(s.subrange(0, i as int), issued, now),
        decreases users@.len() - i,
    {
        let u = &users[i];
        let ghost pre = s.subrange(0, i as int);
        let ghost cur = s.subrange(0, i + 1);
        assert(cur[i as int] == u@);
        assert(s[i as int] == u@);
        if u.id < 1 || u.id > issued || u.created_at > now || (i > 0 && users[i - 1].id >= u.id) {
            assert(!users_ok(s, issued, now)) by {
                assert(s[i as int].id == u.id && s[i as int].created_at == u.created_at);
                if i > 0 && users[i - 1].id >= u.id {
                    assert(s[i - 1] == users@[i - 1]@);
                }
            }
            return false;
        }
        assert(users_ok(cur, issued, now)) by {
            assert forall|a: int, b: int| 0 <= a < b < cur.len() implies cur[a].id < cur[b].id by {
                if b == i && a < i - 1 {
                    assert(pre[a].id < pre[i - 1].id);
                }
                if b == i {
                    assert(s[i - 1] == users@[i - 1]@);
                }
            }
        }
        i += 1;
    }
    assert(s.subrange(0, s.len() as int) =~= s);
    true
}

/// Whether saved messages are numbered from 1 and none is later than `now`.
pub(crate) fn messages_valid(m: &Vec<TicketMessage>, now: u64) -> (r: bool)
    ensures
        r == messages_ok(messages_view(m@), now),
{
    let ghost s = messages_view(m@);
    let mut k: usize = 0;
    while k < m.len()
        invariant
            s == messages_view(m@),
            k <= m@.len(),
            forall|j: int| 0 <= j < k ==> (#[trigger] s[j]).id == j + 1 && s[j].created_at <= now,
        decreases m@.len() - k,
    {
        assert(s[k as int] == m@[k as int]@);
        if m[k].id as u128 != k as u128 + 1 || m[k].created_at > now {
            return false;
        }
        k += 1;
    }
    true
}

/// Whether a saved ticket keeps the rules of a stored one.
pub(crate) fn ticket_valid(t: &Ticket, now: u64) -> (r: bool)
    ensures
        r == ticket_ok(t@, now),
{
    if !priority_in_range(t.priority) || t.created_at > t.updated_at || t.updated_at > now {
        return false;
    }
    match t.resolved_at {
        Some(at) => {
            if at < t.created_at || at > now {
                return false;
            }
        },
        None => {},
    }
    messages_valid(&t.messages, now)
}

/// Whether saved tickets could have come from a store with these counters.
pub(crate) fn tickets_valid(tickets: &Vec<Ticket>, issued: u64, now: u64) -> (r: bool)
    ensures
        r == tickets_ok(tickets@.map_values(|t: Ticket| t@), issued, now),
{
    let ghost s = tickets@.map_values(|t: Ticket| t@);
    let mut i: usize = 0;
    while i < tickets.len()
        invariant
            s == tickets@.map_values(|t: Ticket| t@),
            i <= tickets@.len(),
            tickets_ok(s.subrange(0, i as int), issued, now),
        decreases tickets@.len() - i,
    {
        let t = &tickets[i];
        let ghost pre = s.subrange(0, i as int);
        let ghost cur = s.subrange(0, i + 1);
        assert(cur[i as int] == t@);
        assert(s[i as int] == t@);
        let fits = ticket_valid(t, now);
        if t.id < 1 || t.id > issued || (i > 0 && tickets[i - 1].id >= t.id) || !fits {
            assert(!tickets_ok(s, issued, now)) by {
                assert(s[i as int].id == t.id);
                assert(!fits ==> !ticket_ok(s[i as int], now));
                if i > 0 && tickets[i - 1].id >= t.id {
                    assert(s[i - 1] == tickets@[i - 1]@);
                }
            }
            return false;
        }
        assert(tickets_ok(cur, issued, now)) by {
            assert forall|a: int, b: int| 0 <= a < b < cur.len() implies cur[a].id < cur[b].id by {
                if b == i && a < i - 1 {
                    assert(pre[a].id < pre[i - 1].id);
                }
                if b == i {
                    assert(s[i - 1] == tickets@[i - 1]@);
                }
            }
            assert forall|a: int| 0 <= a < cur.len() implies ticket_ok(#[trigger] cur[a], now) by {
                if a < i {
                    assert(cur[a] == pre[a]);
                }
            }
        }
        i += 1;
    }
    assert(s.subrange(0, s.len() as int) =~= s);
    true
}

} // verus!
