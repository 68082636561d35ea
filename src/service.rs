//! The store of users and tickets: identifier allocation, referential checks
//! and validated mutation.
use vstd::prelude::*;
use crate::integrity::{tickets_valid, users_valid};
use crate::text::{blank, is_blank};
use crate::stats::{describes, resolutions_ordered, ticket_stats, TicketStats};
use crate::records::{
    duplicate_messages, messages_view, valid_priority, priority_in_range, Entity, Invalid, MessageView, StoreError, Ticket,
    TicketMessage, TicketStatus, TicketType, TicketView, User, UserView,
};

verus! {

/// Whether the user at position `i` of `s` has identifier `id`.
pub open spec fn user_at(s: Seq<UserView>, id: u64, i: int) -> bool {
    0 <= i < s.len() && s[i].id == id
}

pub open spec fn has_user(s: Seq<UserView>, id: u64) -> bool {
    exists|i: int| user_at(s, id, i)
}

/// The position of the user with identifier `id` (meaningful when there is one).
pub open spec fn user_index(s: Seq<UserView>, id: u64) -> int {
    choose|i: int| user_at(s, id, i)
}

pub open spec fn ticket_at(s: Seq<TicketView>, id: u64, i: int) -> bool {
    0 <= i < s.len() && s[i].id == id
}

pub open spec fn has_ticket(s: Seq<TicketView>, id: u64) -> bool {
    exists|i: int| ticket_at(s, id, i)
}

/// The position of the ticket with identifier `id` (meaningful when there is one).
pub open spec fn ticket_index(s: Seq<TicketView>, id: u64) -> int {
    choose|i: int| ticket_at(s, id, i)
}

/// Users are kept in strictly ascending identifier order; identifiers lie in
/// `1..=issued` and every timestamp is at most `now`.
pub open spec fn users_ok(s: Seq<UserView>, issued: u64, now: u64) -> bool {
    &&& forall|i: int| 0 <= i < s.len() ==> 1 <= #[trigger] s[i].id <= issued
    &&& forall|i: int| 0 <= i < s.len() ==> #[trigger] s[i].created_at <= now
    &&& forall|i: int, j: int| 0 <= i < j < s.len() ==> s[i].id < s[j].id
}

/// Messages of a ticket are numbered `1, 2, ...` in order, none later than `now`.
pub open spec fn messages_ok(m: Seq<MessageView>, now: u64) -> bool {
    forall|k: int| 0 <= k < m.len() ==> (#[trigger] m[k]).id == k + 1 && m[k].created_at <= now
}

pub open spec fn ticket_ok(t: TicketView, now: u64) -> bool {
    &&& valid_priority(t.priority)
    &&& t.created_at <= t.updated_at <= now
    &&& t.resolved_at matches Some(r) ==> t.created_at <= r <= now
    &&& messages_ok(t.messages, now)
}

pub open spec fn tickets_ok(s: Seq<TicketView>, issued: u64, now: u64) -> bool {
    &&& forall|i: int| 0 <= i < s.len() ==> 1 <= #[trigger] s[i].id <= issued
    &&& forall|i: int| 0 <= i < s.len() ==> ticket_ok(#[trigger] s[i], now)
    &&& forall|i: int, j: int| 0 <= i < j < s.len() ==> s[i].id < s[j].id
}

/// The value an optional replacement leaves in a field.
pub open spec fn replaced<T>(o: Option<T>, current: T) -> T {
    match o {
        Some(v) => v,
        None => current,
    }
}

pub open spec fn replaced_text(o: Option<String>, current: Seq<char>) -> Seq<char> {
    match o {
        Some(v) => v@,
        None => current,
    }
}

/// Users and tickets, each kept in ascending identifier order, with the
/// last identifier handed out for each kind and the latest time seen.
pub struct TicketService {
    users: Vec<User>,
    tickets: Vec<Ticket>,
    last_user: u64,
    last_ticket: u64,
    latest: u64,
}

impl TicketService {
    pub closed spec fn users_view(&self) -> Seq<UserView> {
        self.users@.map_values(|u: User| u@)
    }

    pub closed spec fn tickets_view(&self) -> Seq<TicketView> {
        self.tickets@.map_values(|t: Ticket| t@)
    }

    /// The last user identifier handed out (0 before the first).
    pub closed spec fn issued_users(&self) -> u64 {
        self.last_user
    }

    /// The last ticket identifier handed out (0 before the first).
    pub closed spec fn issued_tickets(&self) -> u64 {
        self.last_ticket
    }

    /// The latest time handed to a mutating operation.
    pub closed spec fn latest_time(&self) -> u64 {
        self.latest
    }

    pub open spec fn wf(&self) -> bool {
        &&& users_ok(self.users_view(), self.issued_users(), self.latest_time())
        &&& tickets_ok(self.tickets_view(), self.issued_tickets(), self.latest_time())
    }

    /// An empty store whose identifier counters start at zero.
    pub fn new() -> (r: TicketService)
        ensures
            r.wf(),
            r.users_view() == Seq::<UserView>::empty(),
            r.tickets_view() == Seq::<TicketView>::empty(),
            r.issued_users() == 0,
            r.issued_tickets() == 0,
            r.latest_time() == 0,
    {
        let r = TicketService {
            users: Vec::new(),
            tickets: Vec::new(),
            last_user: 0,
            last_ticket: 0,
            latest: 0,
        };
        assert(r.users_view() =~= Seq::<UserView>::empty());
        assert(r.tickets_view() =~= Seq::<TicketView>::empty());
        r
    }

    /// Rebuilds a store from saved records, counters and clock. Gives `None`
    /// where they could not have come from a store: identifiers out of range
    /// or out of order, a bad priority, misnumbered messages, or timestamps
    /// out of order.
    pub fn restore(
        users: Vec<User>,
        tickets: Vec<Ticket>,
        last_user_id: u64,
        last_ticket_id: u64,
        last_time: u64,
    ) -> (r: Option<TicketService>)
        ensures
            r is Some <==> users_ok(users@.map_values(|u: User| u@), last_user_id, last_time)
                && tickets_ok(tickets@.map_values(|t: Ticket| t@), last_ticket_id, last_time),
            r matches Some(s) ==> {
                &&& s.wf()
                &&& s.users_view() == users@.map_values(|u: User| u@)
                &&& s.tickets_view() == tickets@.map_values(|t: Ticket| t@)
                &&& s.issued_users() == last_user_id
                &&& s.issued_tickets() == last_ticket_id
                &&& s.latest_time() == last_time
            },
    {
        if !users_valid(&users, last_user_id, last_time) {
            return None;
        }
        if !tickets_valid(&tickets, last_ticket_id, last_time) {
            return None;
        }
        Some(
            TicketService {
                users,
                tickets,
                last_user: last_user_id,
                last_ticket: last_ticket_id,
                latest: last_time,
            },
        )
    }

    pub fn last_user_id(&self) -> (r: u64)
        ensures
            r == self.issued_users(),
    {
        self.last_user
    }

    pub fn last_ticket_id(&self) -> (r: u64)
        ensures
            r == self.issued_tickets(),
    {
        self.last_ticket
    }

    pub fn last_time(&self) -> (r: u64)
        ensures
            r == self.latest_time(),
    {
        self.latest
    }

    /// Position of the user with identifier `id`.
    fn find_user(&self, id: u64) -> (r: Option<usize>)
        requires
            self.wf(),
        ensures
            r is None <==> !has_user(self.users_view(), id),
            r matches Some(i) ==> i == user_index(self.users_view(), id) && user_at(
                self.users_view(),
                id,
                i as int,
            ),
    {
        let mut i: usize = 0;
        while i < self.users.len()
            invariant
                self.wf(),
                i <= self.users@.len(),
                forall|j: int| 0 <= j < i ==> self.users@[j].id != id,
            decreases self.users@.len() - i,
        {
            if self.users[i].id == id {
                let ghost s = self.users_view();
                assert(user_at(s, id, i as int));
                let ghost c = user_index(s, id);
                assert(user_at(s, id, c));
                assert(c == i) by {
                    if c < i {
                        assert(s[c].id < s[i as int].id);
                    } else if c > i {
                        assert(s[i as int].id < s[c].id);
                    }
                }
                return Some(i);
            }
            i += 1;
        }
        assert(!has_user(self.users_view(), id)) by {
            if has_user(self.users_view(), id) {
                let c = user_index(self.users_view(), id);
                assert(self.users@[c].id == id);
            }
        }
        None
    }

    /// Position of the ticket with identifier `id`.
    fn find_ticket(&self, id: u64) -> (r: Option<usize>)
        requires
            self.wf(),
        ensures
            r is None <==> !has_ticket(self.tickets_view(), id),
            r matches Some(i) ==> i == ticket_index(self.tickets_view(), id) && ticket_at(
                self.tickets_view(),
                id,
                i as int,
            ),
    {
        let mut i: usize = 0;
        while i < self.tickets.len()
            invariant
                self.wf(),
                i <= self.tickets@.len(),
                forall|j: int| 0 <= j < i ==> self.tickets@[j].id != id,
            decreases self.tickets@.len() - i,
        {
            if self.tickets[i].id == id {
                let ghost s = self.tickets_view();
                assert(ticket_at(s, id, i as int));
                let ghost c = ticket_index(s, id);
                assert(ticket_at(s, id, c));
                assert(c == i) by {
                    if c < i {
                        assert(s[c].id < s[i as int].id);
                    } else if c > i {
                        assert(s[i as int].id < s[c].id);
                    }
                }
                return Some(i);
            }
            i += 1;
        }
        assert(!has_ticket(self.tickets_view(), id)) by {
            if has_ticket(self.tickets_view(), id) {
                let c = ticket_index(self.tickets_view(), id);
                assert(self.tickets@[c].id == id);
            }
        }
        None
    }

    /// Whether a user with identifier `id` exists.
    pub fn user_exists(&self, id: u64) -> (r: bool)
        requires
            self.wf(),
        ensures
            r == has_user(self.users_view(), id),
    {
        self.find_user(id).is_some()
    }

    /// Registers a user under the next user identifier, stamped with `now`.
    pub fn create_user(&mut self, name: String, email: String, now: u64) -> (r: User)
        requires
            old(self).wf(),
            old(self).issued_users() < u64::MAX,
            old(self).latest_time() <= now,
        ensures
            final(self).wf(),
            r@ == (UserView {
                id: (old(self).issued_users() + 1) as u64,
                name: name@,
                email: email@,
                created_at: now,
            }),
            final(self).users_view() == old(self).users_view().push(r@),
            final(self).tickets_view() == old(self).tickets_view(),
            final(self).issued_users() == r.id,
            final(self).issued_tickets() == old(self).issued_tickets(),
            final(self).latest_time() == now,
    {
        self.last_user = self.last_user + 1;
        self.latest = now;
        let user = User { id: self.last_user, name, email, created_at: now };
        let r = user.duplicate();
        self.users.push(user);
        assert(self.users_view() =~= old(self).users_view().push(r@));
        assert(self.tickets_view() =~= old(self).tickets_view());
        r
    }

    /// The user with identifier `id`, if there is one.
    pub fn get_user(&self, id: u64) -> (r: Option<User>)
        requires
            self.wf(),
        ensures
            r is Some <==> has_user(self.users_view(), id),
            r matches Some(u) ==> u@ == self.users_view()[user_index(self.users_view(), id)],
    {
        match self.find_user(id) {
            Some(i) => Some(self.users[i].duplicate()),
            None => None,
        }
    }

    /// Every user, in ascending identifier order.
    pub fn list_users(&self) -> (r: Vec<User>)
        requires
            self.wf(),
        ensures
            r@.map_values(|u: User| u@) == self.users_view(),
    {
        let mut r: Vec<User> = Vec::new();
        let mut i: usize = 0;
        while i < self.users.len()
            invariant
                r@.len() == i,
                i <= self.users@.len(),
                forall|j: int| 0 <= j < i ==> #[trigger] r@[j]@ == self.users@[j]@,
            decreases self.users@.len() - i,
        {
            r.push(self.users[i].duplicate());
            i += 1;
        }
        assert(r@.map_values(|u: User| u@) =~= self.users_view());
        r
    }

    /// Replaces the name and e-mail of a user where a new value is given.
    pub fn update_user(&mut self, id: u64, name: Option<String>, email: Option<String>) -> (r:
        Result<User, StoreError>)
        requires
            old(self).wf(),
        ensures
            final(self).wf(),
            r is Err <==> !has_user(old(self).users_view(), id),
            r matches Err(e) ==> e == StoreError::NotFound(Entity::User, id) && *final(self)
                == *old(self),
            r matches Ok(u) ==> {
                let k = user_index(old(self).users_view(), id);
                let before = old(self).users_view()[k];
                &&& u@ == (UserView {
                    name: replaced_text(name, before.name),
                    email: replaced_text(email, before.email),
                    ..before
                })
                &&& final(self).users_view() == old(self).users_view().update(k, u@)
                &&& final(self).tickets_view() == old(self).tickets_view()
                &&& final(self).issued_users() == old(self).issued_users()
                &&& final(self).issued_tickets() == old(self).issued_tickets()
                &&& final(self).latest_time() == old(self).latest_time()
            },
    {
        match self.find_user(id) {
            None => Err(StoreError::NotFound(Entity::User, id)),
            Some(k) => {
                let mut user = self.users[k].duplicate();
                match name {
                    Some(n) => {
                        user.name = n;
                    },
                    None => {},
                }
                match email {
                    Some(e) => {
                        user.email = e;
                    },
                    None => {},
                }
                let r = user.duplicate();
                self.users.set(k, user);
                assert(self.users_view() =~= old(self).users_view().update(k as int, r@));
                assert(self.tickets_view() =~= old(self).tickets_view());
                Ok(r)
            },
        }
    }

    /// Removes a user. Tickets that name the user are left as they are.
    pub fn delete_user(&mut self, id: u64) -> (r: Result<(), StoreError>)
        requires
            old(self).wf(),
        ensures
            final(self).wf(),
            r is Err <==> !has_user(old(self).users_view(), id),
            r matches Err(e) ==> e == StoreError::NotFound(Entity::User, id) && *final(self)
                == *old(self),
            r is Ok ==> {
                &&& final(self).users_view() == old(self).users_view().remove(
                    user_index(old(self).users_view(), id),
                )
                &&& final(self).tickets_view() == old(self).tickets_view()
                &&& final(self).issued_users() == old(self).issued_users()
                &&& final(self).issued_tickets() == old(self).issued_tickets()
                &&& final(self).latest_time() == old(self).latest_time()
            },
    {
        match self.find_user(id) {
            None => Err(StoreError::NotFound(Entity::User, id)),
            Some(k) => {
                let _gone = self.users.remove(k);
                assert(self.users_view() =~= old(self).users_view().remove(k as int));
                assert(self.tickets_view() =~= old(self).tickets_view());
                assert(users_ok(self.users_view(), self.issued_users(), self.latest_time())) by {
                    let s = self.users_view();
                    let o = old(self).users_view();
                    assert forall|i: int, j: int| 0 <= i < j < s.len() implies s[i].id
                        < s[j].id by {
                        let oi = if i < k { i } else { i + 1 };
                        let oj = if j < k { j } else { j + 1 };
                        assert(s[i] == o[oi]);
                        assert(s[j] == o[oj]);
                    }
                }
                Ok(())
            },
        }
    }

    /// Puts `t` in place of the ticket at position `k` and advances the clock.
    fn replace_ticket(&mut self, k: usize, t: Ticket, now: u64)
        requires
            old(self).wf(),
            k < old(self).tickets@.len(),
            t.id == old(self).tickets@[k as int].id,
            old(self).latest_time() <= now,
            ticket_ok(t@, now),
        ensures
            final(self).wf(),
            changed_ticket(*old(self), *final(self), k as int, t@, now),
    {
        let ghost tv = t@;
        self.tickets.set(k, t);
        self.latest = now;
        assert(self.tickets_view() =~= old(self).tickets_view().update(k as int, tv));
        assert(self.users_view() =~= old(self).users_view());
        assert(users_ok(self.users_view(), self.issued_users(), now));
        assert(forall|i: int|
            0 <= i < self.tickets_view().len() ==> #[trigger] self.tickets_view()[i].id
                == old(self).tickets_view()[i].id);
        assert forall|i: int| 0 <= i < self.tickets_view().len() implies ticket_ok(
            #[trigger] self.tickets_view()[i],
            now,
        ) by {
            if i != k {
                lemma_ticket_ok_later(old(self).tickets_view()[i], old(self).latest_time(), now);
            }
        }
    }

    /// Opens a ticket under the next ticket identifier, stamped with `now`.
    /// The priority is checked first, then the author.
    pub fn create_ticket(
        &mut self,
        title: String,
        description: String,
        ticket_type: TicketType,
        created_by: u64,
        priority: u8,
        now: u64,
    ) -> (r: Result<Ticket, StoreError>)
        requires
            old(self).wf(),
            old(self).issued_tickets() < u64::MAX,
            old(self).latest_time() <= now,
        ensures
            final(self).wf(),
            !valid_priority(priority) ==> r == Err::<Ticket, StoreError>(
                StoreError::Validation(Invalid::Priority),
            ),
            valid_priority(priority) && !has_user(old(self).users_view(), created_by) ==> r
                == Err::<Ticket, StoreError>(StoreError::NotFound(Entity::User, created_by)),
            r is Ok <==> valid_priority(priority) && has_user(old(self).users_view(), created_by),
            r is Err ==> *final(self) == *old(self),
            r matches Ok(t) ==> {
                &&& t@ == (TicketView {
                    id: (old(self).issued_tickets() + 1) as u64,
                    title: title@,
                    description: description@,
                    ticket_type,
                    status: TicketStatus::Open,
                    assignee_id: None,
                    created_by,
                    created_at: now,
                    updated_at: now,
                    resolved_at: None,
                    priority,
                    messages: Seq::<MessageView>::empty(),
                })
                &&& final(self).tickets_view() == old(self).tickets_view().push(t@)
                &&& final(self).users_view() == old(self).users_view()
                &&& final(self).issued_tickets() == t.id
                &&& final(self).issued_users() == old(self).issued_users()
                &&& final(self).latest_time() == now
            },
    {
        if !priority_in_range(priority) {
            return Err(StoreError::Validation(Invalid::Priority));
        }
        if !self.user_exists(created_by) {
            return Err(StoreError::NotFound(Entity::User, created_by));
        }
        self.last_ticket = self.last_ticket + 1;
        self.latest = now;
        let ticket = Ticket {
            id: self.last_ticket,
            title,
            description,
            ticket_type,
            status: TicketStatus::Open,
            assignee_id: None,
            created_by,
            created_at: now,
            updated_at: now,
            resolved_at: None,
            priority,
            messages: Vec::new(),
        };
        assert(ticket@.messages =~= Seq::<MessageView>::empty());
        let r = ticket.duplicate();
        self.tickets.push(ticket);
        assert(self.tickets_view() =~= old(self).tickets_view().push(r@));
        assert(self.users_view() =~= old(self).users_view());
        assert(ticket_ok(r@, now));
        assert forall|i: int| 0 <= i < self.tickets_view().len() implies ticket_ok(
            #[trigger] self.tickets_view()[i],
            now,
        ) by {
            if i < old(self).tickets_view().len() {
                lemma_ticket_ok_later(old(self).tickets_view()[i], old(self).latest_time(), now);
            }
        }
        Ok(r)
    }

    /// The ticket with identifier `id`, if there is one.
    pub fn get_ticket(&self, id: u64) -> (r: Option<Ticket>)
        requires
            self.wf(),
        ensures
            r is Some <==> has_ticket(self.tickets_view(), id),
            r matches Some(t) ==> t@ == self.tickets_view()[ticket_index(self.tickets_view(), id)],
    {
        match self.find_ticket(id) {
            Some(i) => Some(self.tickets[i].duplicate()),
            None => None,
        }
    }

    /// The tickets that `f` selects, in ascending identifier order.
    pub fn list_tickets_by(&self, f: TicketFilter) -> (r: Vec<Ticket>)
        requires
            self.wf(),
        ensures
            r@.map_values(|t: Ticket| t@) == self.tickets_view().filter(|t: TicketView| selects(f, t)),
    {
        let ghost s = self.tickets_view();
        let ghost pred = |t: TicketView| selects(f, t);
        let mut r: Vec<Ticket> = Vec::new();
        let mut i: usize = 0;
        while i < self.tickets.len()
            invariant
                s == self.tickets_view(),
                pred == (|t: TicketView| selects(f, t)),
                i <= self.tickets@.len(),
                r@.map_values(|t: Ticket| t@) == s.subrange(0, i as int).filter(pred),
            decreases self.tickets@.len() - i,
        {
            let ghost before = r@.map_values(|t: Ticket| t@);
            let keep = f.selects_ticket(&self.tickets[i]);
            if keep {
                r.push(self.tickets[i].duplicate());
            }
            proof {
                reveal(Seq::filter);
                let sub = s.subrange(0, i + 1);
                assert(s[i as int] == self.tickets@[i as int]@);
                assert(sub.drop_last() =~= s.subrange(0, i as int));
                assert(sub.last() == s[i as int]);
                assert(sub.filter(pred) == if pred(sub.last()) {
                    sub.drop_last().filter(pred).push(sub.last())
                } else {
                    sub.drop_last().filter(pred)
                });
                assert(keep == pred(s[i as int]));
                if keep {
                    assert(r@.map_values(|t: Ticket| t@) =~= before.push(s[i as int]));
                } else {
                    assert(r@.map_values(|t: Ticket| t@) =~= before);
                }
            }
            i += 1;
        }
        assert(s.subrange(0, s.len() as int) =~= s);
        r
    }

    /// Tickets of the given type, in ascending identifier order.
    pub fn list_tickets_by_type(&self, ticket_type: TicketType) -> (r: Vec<Ticket>)
        requires
            self.wf(),
        ensures
            r@.map_values(|t: Ticket| t@) == self.tickets_view().filter(
                |t: TicketView| selects(TicketFilter::ByType(ticket_type), t),
            ),
    {
        self.list_tickets_by(TicketFilter::ByType(ticket_type))
    }

    /// Tickets with the given status, in ascending identifier order.
    pub fn list_tickets_by_status(&self, status: TicketStatus) -> (r: Vec<Ticket>)
        requires
            self.wf(),
        ensures
            r@.map_values(|t: Ticket| t@) == self.tickets_view().filter(
                |t: TicketView| selects(TicketFilter::ByStatus(status), t),
            ),
    {
        self.list_tickets_by(TicketFilter::ByStatus(status))
    }

    /// Tickets assigned to the given user, in ascending identifier order.
    pub fn list_tickets_by_assignee(&self, assignee_id: u64) -> (r: Vec<Ticket>)
        requires
            self.wf(),
        ensures
            r@.map_values(|t: Ticket| t@) == self.tickets_view().filter(
                |t: TicketView| selects(TicketFilter::ByAssignee(assignee_id), t),
            ),
    {
        self.list_tickets_by(TicketFilter::ByAssignee(assignee_id))
    }

    /// Sets a ticket's status at time `now`. Moving to `Resolved` stamps
    /// `resolved_at` with `now`, replacing any earlier stamp; other moves
    /// keep it.
    pub fn update_ticket_status(&mut self, id: u64, status: TicketStatus, now: u64) -> (r: Result<
        Ticket,
        StoreError,
    >)
        requires
            old(self).wf(),
            old(self).latest_time() <= now,
        ensures
            final(self).wf(),
            r is Err <==> !has_ticket(old(self).tickets_view(), id),
            r matches Err(e) ==> e == StoreError::NotFound(Entity::Ticket, id) && *final(self)
                == *old(self),
            r matches Ok(t) ==> {
                let k = ticket_index(old(self).tickets_view(), id);
                let before = old(self).tickets_view()[k];
                &&& t@ == (TicketView {
                    status,
                    updated_at: now,
                    resolved_at: if status == TicketStatus::Resolved {
                        Some(now)
                    } else {
                        before.resolved_at
                    },
                    ..before
                })
                &&& changed_ticket(*old(self), *final(self), k, t@, now)
            },
    {
        match self.find_ticket(id) {
            None => Err(StoreError::NotFound(Entity::Ticket, id)),
            Some(k) => {
                let mut t = self.tickets[k].duplicate();
                t.status = status;
                t.updated_at = now;
                if status == TicketStatus::Resolved {
                    t.resolved_at = Some(now);
                }
                let r = t.duplicate();
                self.replace_ticket(k, t, now);
                Ok(r)
            },
        }
    }

    /// Sets or clears a ticket's assignee at time `now`. A given assignee is
    /// checked first, then the ticket.
    pub fn assign_ticket(&mut self, id: u64, assignee_id: Option<u64>, now: u64) -> (r: Result<
        Ticket,
        StoreError,
    >)
        requires
            old(self).wf(),
            old(self).latest_time() <= now,
        ensures
            final(self).wf(),
            r is Err ==> *final(self) == *old(self),
            assignee_id matches Some(u) ==> (!has_user(old(self).users_view(), u) ==> r == Err::<
                Ticket,
                StoreError,
            >(StoreError::NotFound(Entity::User, u))),
            (assignee_id matches Some(u) ==> has_user(old(self).users_view(), u)) ==> {
                &&& r is Err <==> !has_ticket(old(self).tickets_view(), id)
                &&& r is Err ==> r == Err::<Ticket, StoreError>(
                    StoreError::NotFound(Entity::Ticket, id),
                )
            },
            r matches Ok(t) ==> {
                let k = ticket_index(old(self).tickets_view(), id);
                let before = old(self).tickets_view()[k];
                &&& t@ == (TicketView { assignee_id, updated_at: now, ..before })
                &&& changed_ticket(*old(self), *final(self), k, t@, now)
            },
    {
        match assignee_id {
            Some(u) => {
                if !self.user_exists(u) {
                    return Err(StoreError::NotFound(Entity::User, u));
                }
            },
            None => {},
        }
        match self.find_ticket(id) {
            None => Err(StoreError::NotFound(Entity::Ticket, id)),
            Some(k) => {
                let mut t = self.tickets[k].duplicate();
                t.assignee_id = assignee_id;
                t.updated_at = now;
                let r = t.duplicate();
                self.replace_ticket(k, t, now);
                Ok(r)
            },
        }
    }

    /// Replaces the given fields of a ticket at time `now`. A given priority
    /// is checked before the ticket is looked up.
    pub fn update_ticket(
        &mut self,
        id: u64,
        title: Option<String>,
        description: Option<String>,
        ticket_type: Option<TicketType>,
        priority: Option<u8>,
        now: u64,
    ) -> (r: Result<Ticket, StoreError>)
        requires
            old(self).wf(),
            old(self).latest_time() <= now,
        ensures
            final(self).wf(),
            r is Err ==> *final(self) == *old(self),
            priority matches Some(p) ==> (!valid_priority(p) ==> r == Err::<Ticket, StoreError>(
                StoreError::Validation(Invalid::Priority),
            )),
            (priority matches Some(p) ==> valid_priority(p)) ==> {
                &&& r is Err <==> !has_ticket(old(self).tickets_view(), id)
                &&& r is Err ==> r == Err::<Ticket, StoreError>(
                    StoreError::NotFound(Entity::Ticket, id),
                )
            },
            r matches Ok(t) ==> {
                let k = ticket_index(old(self).tickets_view(), id);
                let before = old(self).tickets_view()[k];
                &&& t@ == (TicketView {
                    title: replaced_text(title, before.title),
                    description: replaced_text(description, before.description),
                    ticket_type: replaced(ticket_type, before.ticket_type),
                    priority: replaced(priority, before.priority),
                    updated_at: now,
                    ..before
                })
                &&& changed_ticket(*old(self), *final(self), k, t@, now)
            },
    {
        match priority {
            Some(p) => {
                if !priority_in_range(p) {
                    return Err(StoreError::Validation(Invalid::Priority));
                }
            },
            None => {},
        }
        match self.find_ticket(id) {
            None => Err(StoreError::NotFound(Entity::Ticket, id)),
            Some(k) => {
                let mut t = self.tickets[k].duplicate();
                match title {
                    Some(v) => {
                        t.title = v;
                    },
                    None => {},
                }
                match description {
                    Some(v) => {
                        t.description = v;
                    },
                    None => {},
                }
                match ticket_type {
                    Some(v) => {
                        t.ticket_type = v;
                    },
                    None => {},
                }
                match priority {
                    Some(v) => {
                        t.priority = v;
                    },
                    None => {},
                }
                t.updated_at = now;
                let r = t.duplicate();
                self.replace_ticket(k, t, now);
                Ok(r)
            },
        }
    }

    /// Removes a ticket and its messages.
    pub fn delete_ticket(&mut self, id: u64) -> (r: Result<(), StoreError>)
        requires
            old(self).wf(),
        ensures
            final(self).wf(),
            r is Err <==> !has_ticket(old(self).tickets_view(), id),
            r matches Err(e) ==> e == StoreError::NotFound(Entity::Ticket, id) && *final(self)
                == *old(self),
            r is Ok ==> {
                &&& final(self).tickets_view() == old(self).tickets_view().remove(
                    ticket_index(old(self).tickets_view(), id),
                )
                &&& final(self).users_view() == old(self).users_view()
                &&& final(self).issued_users() == old(self).issued_users()
                &&& final(self).issued_tickets() == old(self).issued_tickets()
                &&& final(self).latest_time() == old(self).latest_time()
            },
    {
        match self.find_ticket(id) {
            None => Err(StoreError::NotFound(Entity::Ticket, id)),
            Some(k) => {
                let _gone = self.tickets.remove(k);
                assert(self.tickets_view() =~= old(self).tickets_view().remove(k as int));
                assert(self.users_view() =~= old(self).users_view());
                assert(tickets_ok(self.tickets_view(), self.issued_tickets(), self.latest_time()))
                    by {
                    let s = self.tickets_view();
                    let o = old(self).tickets_view();
                    assert forall|i: int, j: int| 0 <= i < j < s.len() implies s[i].id
                        < s[j].id by {
                        let oi = if i < k { i } else { i + 1 };
                        let oj = if j < k { j } else { j + 1 };
                        assert(s[i] == o[oi]);
                        assert(s[j] == o[oj]);
                    }
                }
                Ok(())
            },
        }
    }

    /// Appends a message to a ticket at time `now`, given whether its content
    /// is blank. The author is checked first, then the content, then the
    /// ticket. The message is numbered one past the ticket's message count.
    pub fn append_message(
        &mut self,
        ticket_id: u64,
        user_id: u64,
        content: String,
        is_blank: bool,
        now: u64,
    ) -> (r: Result<Ticket, StoreError>)
        requires
            old(self).wf(),
            old(self).latest_time() <= now,
            room_for_message(old(self).tickets_view(), ticket_id),
        ensures
            final(self).wf(),
            r is Err ==> *final(self) == *old(self),
            !has_user(old(self).users_view(), user_id) ==> r == Err::<Ticket, StoreError>(
                StoreError::NotFound(Entity::User, user_id),
            ),
            has_user(old(self).users_view(), user_id) && is_blank ==> r == Err::<
                Ticket,
                StoreError,
            >(StoreError::Validation(Invalid::BlankContent)),
            has_user(old(self).users_view(), user_id) && !is_blank ==> {
                &&& r is Err <==> !has_ticket(old(self).tickets_view(), ticket_id)
                &&& r is Err ==> r == Err::<Ticket, StoreError>(
                    StoreError::NotFound(Entity::Ticket, ticket_id),
                )
            },
            r matches Ok(t) ==> {
                let k = ticket_index(old(self).tickets_view(), ticket_id);
                let before = old(self).tickets_view()[k];
                &&& t@ == (TicketView {
                    messages: before.messages.push(
                        MessageView {
                            id: (before.messages.len() + 1) as u64,
                            user_id,
                            content: content@,
                            created_at: now,
                        },
                    ),
                    updated_at: now,
                    ..before
                })
                &&& changed_ticket(*old(self), *final(self), k, t@, now)
            },
    {
        if !self.user_exists(user_id) {
            return Err(StoreError::NotFound(Entity::User, user_id));
        }
        if is_blank {
            return Err(StoreError::Validation(Invalid::BlankContent));
        }
        match self.find_ticket(ticket_id) {
            None => Err(StoreError::NotFound(Entity::Ticket, ticket_id)),
            Some(k) => {
                let mut t = self.tickets[k].duplicate();
                let ghost before = t@;
                let n = t.messages.len() as u64;
                let message = TicketMessage { id: n + 1, user_id, content, created_at: now };
                t.messages.push(message);
                t.updated_at = now;
                assert(t@.messages =~= before.messages.push(message@));
                assert(ticket_ok(t@, now)) by {
                    lemma_ticket_ok_later(before, old(self).latest_time(), now);
                }
                let r = t.duplicate();
                self.replace_ticket(k, t, now);
                Ok(r)
            },
        }
    }

    /// Appends a message to a ticket at time `now`. The author is checked
    /// first, then that the content is not blank, then the ticket.
    pub fn add_message(&mut self, ticket_id: u64, user_id: u64, content: String, now: u64) -> (r:
        Result<Ticket, StoreError>)
        requires
            old(self).wf(),
            old(self).latest_time() <= now,
            room_for_message(old(self).tickets_view(), ticket_id),
        ensures
            final(self).wf(),
            r is Err ==> *final(self) == *old(self),
            !has_user(old(self).users_view(), user_id) ==> r == Err::<Ticket, StoreError>(
                StoreError::NotFound(Entity::User, user_id),
            ),
            has_user(old(self).users_view(), user_id) && blank(content@) ==> r == Err::<
                Ticket,
                StoreError,
            >(StoreError::Validation(Invalid::BlankContent)),
            has_user(old(self).users_view(), user_id) && !blank(content@) ==> {
                &&& r is Err <==> !has_ticket(old(self).tickets_view(), ticket_id)
                &&& r is Err ==> r == Err::<Ticket, StoreError>(
                    StoreError::NotFound(Entity::Ticket, ticket_id),
                )
            },
            r matches Ok(t) ==> {
                let k = ticket_index(old(self).tickets_view(), ticket_id);
                let before = old(self).tickets_view()[k];
                &&& t@ == (TicketView {
                    messages: before.messages.push(
                        MessageView {
                            id: (before.messages.len() + 1) as u64,
                            user_id,
                            content: content@,
                            created_at: now,
                        },
                    ),
                    updated_at: now,
                    ..before
                })
                &&& changed_ticket(*old(self), *final(self), k, t@, now)
            },
    {
        let b = is_blank(content.as_str());
        self.append_message(ticket_id, user_id, content, b, now)
    }

    /// The messages of a ticket, in the order they were added.
    pub fn get_messages(&self, ticket_id: u64) -> (r: Result<Vec<TicketMessage>, StoreError>)
        requires
            self.wf(),
        ensures
            r is Err <==> !has_ticket(self.tickets_view(), ticket_id),
            r matches Err(e) ==> e == StoreError::NotFound(Entity::Ticket, ticket_id),
            r matches Ok(m) ==> messages_view(m@) == self.tickets_view()[ticket_index(
                self.tickets_view(),
                ticket_id,
            )].messages,
    {
        match self.find_ticket(ticket_id) {
            None => Err(StoreError::NotFound(Entity::Ticket, ticket_id)),
            Some(k) => Ok(duplicate_messages(&self.tickets[k].messages)),
        }
    }

    /// Counts of all stored tickets by status and by type, and their mean
    /// time from creation to resolution.
    pub fn compute_stats(&self) -> (r: TicketStats)
        requires
            self.wf(),
        ensures
            describes(r, self.tickets_view()),
    {
        assert(resolutions_ordered(self.tickets_view())) by {
            assert forall|i: int| 0 <= i < self.tickets_view().len() implies ((
            #[trigger] self.tickets_view()[i]).resolved_at matches Some(r)
                ==> self.tickets_view()[i].created_at <= r) by {
                assert(ticket_ok(self.tickets_view()[i], self.latest_time()));
            }
        }
        ticket_stats(&self.tickets)
    }

    /// Every ticket, in ascending identifier order.
    pub fn list_tickets(&self) -> (r: Vec<Ticket>)
        requires
            self.wf(),
        ensures
            r@.map_values(|t: Ticket| t@) == self.tickets_view(),
    {
        let mut r: Vec<Ticket> = Vec::new();
        let mut i: usize = 0;
        while i < self.tickets.len()
            invariant
                r@.len() == i,
                i <= self.tickets@.len(),
                forall|j: int| 0 <= j < i ==> #[trigger] r@[j]@ == self.tickets@[j]@,
            decreases self.tickets@.len() - i,
        {
            r.push(self.tickets[i].duplicate());
            i += 1;
        }
        assert(r@.map_values(|t: Ticket| t@) =~= self.tickets_view());
        r
    }
}

/// The ticket with identifier `id`, if there is one, can take one more
/// message without its count leaving `u64`.
pub open spec fn room_for_message(s: Seq<TicketView>, id: u64) -> bool {
    has_ticket(s, id) ==> s[ticket_index(s, id)].messages.len() < u64::MAX
}

/// A selection of tickets by one of their fields.
#[derive(Clone, Copy, Debug, PartialEq, Eq, Structural)]
pub enum TicketFilter {
    ByType(TicketType),
    ByStatus(TicketStatus),
    ByAssignee(u64),
}

pub open spec fn selects(f: TicketFilter, t: TicketView) -> bool {
    match f {
        TicketFilter::ByType(k) => t.ticket_type == k,
        TicketFilter::ByStatus(s) => t.status == s,
        TicketFilter::ByAssignee(a) => t.assignee_id == Some(a),
    }
}

impl TicketFilter {
    pub fn selects_ticket(&self, t: &Ticket) -> (r: bool)
        ensures
            r == selects(*self, t@),
    {
        match *self {
            TicketFilter::ByType(k) => t.ticket_type == k,
            TicketFilter::ByStatus(s) => t.status == s,
            TicketFilter::ByAssignee(a) => match t.assignee_id {
                Some(x) => x == a,
                None => false,
            },
        }
    }
}

/// `after` holds `before`'s data with the ticket at position `k` replaced by
/// `t`, and its clock at `now`.
pub open spec fn changed_ticket(
    before: TicketService,
    after: TicketService,
    k: int,
    t: TicketView,
    now: u64,
) -> bool {
    &&& after.tickets_view() == before.tickets_view().update(k, t)
    &&& after.users_view() == before.users_view()
    &&& after.issued_users() == before.issued_users()
    &&& after.issued_tickets() == before.issued_tickets()
    &&& after.latest_time() == now
}

proof fn lemma_ticket_ok_later(t: TicketView, a: u64, b: u64)
    requires
        ticket_ok(t, a),
        a <= b,
    ensures
        ticket_ok(t, b),
{
    assert forall|k: int| 0 <= k < t.messages.len() implies (#[trigger] t.messages[k]).id == k + 1
        && t.messages[k].created_at <= b by {
        assert(t.messages[k].id == k + 1 && t.messages[k].created_at <= a);
    }
}

} // verus!
