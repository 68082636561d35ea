//! The records kept by the store, their mathematical views, and the errors
//! that its operations report.
use vstd::prelude::*;

verus! {

/// The kind of work a ticket describes.
#[derive(Clone, Copy, Debug, PartialEq, Eq, Structural)]
pub enum TicketType {
    Bug,
    Feature,
    Support,
    Maintenance,
    Other,
}

/// Where a ticket stands in its life cycle.
#[derive(Clone, Copy, Debug, PartialEq, Eq, Structural)]
pub enum TicketStatus {
    Open,
    InProgress,
    OnHold,
    Resolved,
    Closed,
}

/// The kind of record an error refers to.
#[derive(Clone, Copy, Debug, PartialEq, Eq, Structural)]
pub enum Entity {
    User,
    Ticket,
}

/// Why an input was rejected.
#[derive(Clone, Copy, Debug, PartialEq, Eq, Structural)]
pub enum Invalid {
    /// A priority outside `1..=5`.
    Priority,
    /// Message content that is empty once white space is trimmed.
    BlankContent,
}

/// The failures of the store's operations.
#[derive(Clone, Copy, Debug, PartialEq, Eq, Structural)]
pub enum StoreError {
    /// A referenced record does not exist.
    NotFound(Entity, u64),
    /// An input broke a validation rule; nothing was changed.
    Validation(Invalid),
}

/// The lowest and highest priority a ticket can have (1 is the most urgent).
pub const MIN_PRIORITY: u8 = 1;
pub const MAX_PRIORITY: u8 = 5;

pub open spec fn valid_priority(p: u8) -> bool {
    MIN_PRIORITY <= p <= MAX_PRIORITY
}

/// Checks a priority against the allowed range.
pub fn priority_in_range(p: u8) -> (r: bool)
    ensures
        r == valid_priority(p),
{
    MIN_PRIORITY <= p && p <= MAX_PRIORITY
}

#[derive(Clone, Debug)]
pub struct User {
    pub id: u64,
    pub name: String,
    pub email: String,
    pub created_at: u64,
}

pub struct UserView {
    pub id: u64,
    pub name: Seq<char>,
    pub email: Seq<char>,
    pub created_at: u64,
}

impl View for User {
    type V = UserView;

    open spec fn view(&self) -> UserView {
        UserView { id: self.id, name: self.name@, email: self.email@, created_at: self.created_at }
    }
}

impl User {
    /// A field-by-field copy.
    pub fn duplicate(&self) -> (r: User)
        ensures
            r@ == self@,
    {
        User {
            id: self.id,
            name: self.name.clone(),
            email: self.email.clone(),
            created_at: self.created_at,
        }
    }
}

/// A message on a ticket; its id numbers it within that ticket from 1.
#[derive(Clone, Debug)]
pub struct TicketMessage {
    pub id: u64,
    pub user_id: u64,
    pub content: String,
    pub created_at: u64,
}

pub struct MessageView {
    pub id: u64,
    pub user_id: u64,
    pub content: Seq<char>,
    pub created_at: u64,
}

impl View for TicketMessage {
    type V = MessageView;

    open spec fn view(&self) -> MessageView {
        MessageView {
            id: self.id,
            user_id: self.user_id,
            content: self.content@,
            created_at: self.created_at,
        }
    }
}

impl TicketMessage {
    /// A field-by-field copy.
    pub fn duplicate(&self) -> (r: TicketMessage)
        ensures
            r@ == self@,
    {
        TicketMessage {
            id: self.id,
            user_id: self.user_id,
            content: self.content.clone(),
            created_at: self.created_at,
        }
    }
}

pub open spec fn messages_view(v: Seq<TicketMessage>) -> Seq<MessageView> {
    v.map_values(|m: TicketMessage| m@)
}

/// Copies a list of messages, keeping their order.
pub fn duplicate_messages(v: &Vec<TicketMessage>) -> (r: Vec<TicketMessage>)
    ensures
        messages_view(r@) == messages_view(v@),
{
    let mut r: Vec<TicketMessage> = Vec::new();
    let mut i: usize = 0;
    while i < v.len()
        invariant
            i <= v.len(),
            r@.len() == i,
            forall|j: int| 0 <= j < i ==> #[trigger] r@[j]@ == v@[j]@,
        decreases v.len() - i,
    {
        r.push(v[i].duplicate());
        i += 1;
    }
    proof {
        assert(messages_view(r@) =~= messages_view(v@));
    }
    r
}

#[derive(Clone, Debug)]
pub struct Ticket {
    pub id: u64,
    pub title: String,
    pub description: String,
    pub ticket_type: TicketType,
    pub status: TicketStatus,
    pub assignee_id: Option<u64>,
    pub created_by: u64,
    pub created_at: u64,
    pub updated_at: u64,
    pub resolved_at: Option<u64>,
    pub priority: u8,
    pub messages: Vec<TicketMessage>,
}

pub struct TicketView {
    pub id: u64,
    pub title: Seq<char>,
    pub description: Seq<char>,
    pub ticket_type: TicketType,
    pub status: TicketStatus,
    pub assignee_id: Option<u64>,
    pub created_by: u64,
    pub created_at: u64,
    pub updated_at: u64,
    pub resolved_at: Option<u64>,
    pub priority: u8,
    pub messages: Seq<MessageView>,
}

impl View for Ticket {
    type V = TicketView;

    open spec fn view(&self) -> TicketView {
        TicketView {
            id: self.id,
            title: self.title@,
            description: self.description@,
            ticket_type: self.ticket_type,
            status: self.status,
            assignee_id: self.assignee_id,
            created_by: self.created_by,
            created_at: self.created_at,
            updated_at: self.updated_at,
            resolved_at: self.resolved_at,
            priority: self.priority,
            messages: messages_view(self.messages@),
        }
    }
}

impl Ticket {
    /// A deep copy, messages included.
    pub fn duplicate(&self) -> (r: Ticket)
        ensures
            r@ == self@,
    {
        Ticket {
            id: self.id,
            title: self.title.clone(),
            description: self.description.clone(),
            ticket_type: self.ticket_type,
            status: self.status,
            assignee_id: self.assignee_id,
            created_by: self.created_by,
            created_at: self.created_at,
            updated_at: self.updated_at,
            resolved_at: self.resolved_at,
            priority: self.priority,
            messages: duplicate_messages(&self.messages),
        }
    }
}

} // verus!
