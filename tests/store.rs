use vex_backend::records::{Entity, Invalid, StoreError, TicketStatus, TicketType};
use vex_backend::service::{TicketFilter, TicketService};
use vex_backend::stats::TicketStats;
use vex_backend::text::is_blank;

fn s(x: &str) -> String {
    x.to_string()
}

fn with_user() -> TicketService {
    let mut svc = TicketService::new();
    svc.create_user(s("Alice"), s("a@x.com"), 10);
    svc
}

#[test]
fn ids_are_sequential_and_never_reused() {
    let mut svc = TicketService::new();
    let a = svc.create_user(s("a"), s("a@x"), 1);
    let b = svc.create_user(s("b"), s("b@x"), 2);
    let c = svc.create_user(s("c"), s("c@x"), 3);
    assert_eq!((a.id, b.id, c.id), (1, 2, 3));
    assert_eq!(svc.delete_user(3), Ok(()));
    let d = svc.create_user(s("d"), s("d@x"), 4);
    assert_eq!(d.id, 4);
    let t1 = svc.create_ticket(s("t"), s("d"), TicketType::Bug, 1, 3, 5).unwrap();
    let t2 = svc.create_ticket(s("u"), s("d"), TicketType::Bug, 1, 3, 6).unwrap();
    assert_eq!((t1.id, t2.id), (1, 2));
    svc.delete_ticket(2).unwrap();
    let t3 = svc.create_ticket(s("v"), s("d"), TicketType::Bug, 1, 3, 7).unwrap();
    assert_eq!(t3.id, 3);
    assert_eq!(svc.last_user_id(), 4);
    assert_eq!(svc.last_ticket_id(), 3);
    let ids: Vec<u64> = svc.list_users().iter().map(|u| u.id).collect();
    assert_eq!(ids, vec![1, 2, 4]);
}

#[test]
fn ticket_with_unknown_author_is_refused() {
    let mut svc = with_user();
    let r = svc.create_ticket(s("t"), s("d"), TicketType::Bug, 7, 3, 20);
    assert_eq!(r.unwrap_err(), StoreError::NotFound(Entity::User, 7));
    assert_eq!(svc.list_tickets().len(), 0);
    assert_eq!(svc.last_ticket_id(), 0);
}

#[test]
fn priority_must_lie_between_one_and_five() {
    let mut svc = with_user();
    for p in [0u8, 6, 255] {
        let r = svc.create_ticket(s("t"), s("d"), TicketType::Bug, 1, p, 20);
        assert_eq!(r.unwrap_err(), StoreError::Validation(Invalid::Priority));
    }
    for p in 1u8..=5 {
        let t = svc.create_ticket(s("t"), s("d"), TicketType::Bug, 1, p, 20).unwrap();
        assert_eq!(t.priority, p);
    }
    assert_eq!(svc.list_tickets().len(), 5);
    // Priority is checked before the author.
    let r = svc.create_ticket(s("t"), s("d"), TicketType::Bug, 99, 0, 21);
    assert_eq!(r.unwrap_err(), StoreError::Validation(Invalid::Priority));
}

#[test]
fn created_ticket_reads_back_unchanged() {
    let mut svc = with_user();
    let t = svc.create_ticket(s("Title"), s("Desc"), TicketType::Feature, 1, 4, 20).unwrap();
    assert_eq!(t.status, TicketStatus::Open);
    assert_eq!(t.assignee_id, None);
    assert_eq!(t.resolved_at, None);
    assert_eq!((t.created_at, t.updated_at), (20, 20));
    assert!(t.messages.is_empty());
    let g = svc.get_ticket(t.id).unwrap();
    assert_eq!(g.title, "Title");
    assert_eq!(g.description, "Desc");
    assert_eq!(g.ticket_type, TicketType::Feature);
    assert_eq!(g.priority, 4);
    assert_eq!(g.created_by, 1);
    assert_eq!((g.created_at, g.updated_at), (20, 20));
    assert!(svc.get_ticket(2).is_none());
}

#[test]
fn resolving_stamps_and_restamps_resolution() {
    let mut svc = with_user();
    svc.create_ticket(s("t"), s("d"), TicketType::Bug, 1, 2, 100).unwrap();
    let t = svc.update_ticket_status(1, TicketStatus::Resolved, 150).unwrap();
    assert_eq!(t.resolved_at, Some(150));
    assert!(t.resolved_at.unwrap() >= t.created_at);
    let t = svc.update_ticket_status(1, TicketStatus::Open, 160).unwrap();
    assert_eq!(t.status, TicketStatus::Open);
    assert_eq!(t.resolved_at, Some(150));
    assert_eq!(t.updated_at, 160);
    let t = svc.update_ticket_status(1, TicketStatus::Resolved, 200).unwrap();
    assert_eq!(t.resolved_at, Some(200));
    let r = svc.update_ticket_status(9, TicketStatus::Closed, 210);
    assert_eq!(r.unwrap_err(), StoreError::NotFound(Entity::Ticket, 9));
}

#[test]
fn messages_are_numbered_per_ticket() {
    let mut svc = with_user();
    svc.create_ticket(s("a"), s("d"), TicketType::Support, 1, 3, 20).unwrap();
    svc.create_ticket(s("b"), s("d"), TicketType::Support, 1, 3, 21).unwrap();
    let t = svc.add_message(1, 1, s("first"), 30).unwrap();
    assert_eq!(t.messages.len(), 1);
    assert_eq!(t.messages[0].id, 1);
    assert_eq!(t.updated_at, 30);
    let t = svc.add_message(1, 1, s("second"), 31).unwrap();
    assert_eq!(t.messages.len(), 2);
    assert_eq!(t.messages[1].id, 2);
    assert_eq!(t.messages[1].content, "second");
    let other = svc.add_message(2, 1, s("elsewhere"), 32).unwrap();
    assert_eq!(other.messages[0].id, 1);
    let m = svc.get_messages(1).unwrap();
    assert_eq!(m.len(), 2);
    assert_eq!((m[0].id, m[1].id), (1, 2));
    assert_eq!(m[0].created_at, 30);
    assert_eq!(svc.get_messages(5).unwrap_err(), StoreError::NotFound(Entity::Ticket, 5));
}

#[test]
fn message_checks_come_in_order() {
    let mut svc = with_user();
    svc.create_ticket(s("a"), s("d"), TicketType::Other, 1, 3, 20).unwrap();
    assert_eq!(
        svc.add_message(1, 8, s("   "), 30).unwrap_err(),
        StoreError::NotFound(Entity::User, 8)
    );
    assert_eq!(
        svc.add_message(1, 1, s(" \t\n "), 30).unwrap_err(),
        StoreError::Validation(Invalid::BlankContent)
    );
    assert_eq!(
        svc.add_message(1, 1, s(""), 30).unwrap_err(),
        StoreError::Validation(Invalid::BlankContent)
    );
    assert_eq!(
        svc.add_message(4, 1, s("hi"), 30).unwrap_err(),
        StoreError::NotFound(Entity::Ticket, 4)
    );
    assert!(svc.get_messages(1).unwrap().is_empty());
    assert_eq!(
        svc.append_message(1, 1, s("x"), true, 30).unwrap_err(),
        StoreError::Validation(Invalid::BlankContent)
    );
    let t = svc.append_message(1, 1, s("x"), false, 30).unwrap();
    assert_eq!(t.messages[0].content, "x");
}

#[test]
fn blank_content_is_judged_after_trimming() {
    assert!(is_blank(""));
    assert!(is_blank("   "));
    assert!(is_blank("\t\r\n \u{3000}"));
    assert!(!is_blank("  a  "));
    assert!(!is_blank("x"));
}

#[test]
fn stats_of_empty_store_are_zero() {
    let svc = TicketService::new();
    let st: TicketStats = svc.compute_stats();
    assert_eq!(st.total, 0);
    assert_eq!(st.by_status.open, 0);
    assert_eq!(st.by_status.in_progress, 0);
    assert_eq!(st.by_status.on_hold, 0);
    assert_eq!(st.by_status.resolved, 0);
    assert_eq!(st.by_status.closed, 0);
    for k in [
        TicketType::Bug,
        TicketType::Feature,
        TicketType::Support,
        TicketType::Maintenance,
        TicketType::Other,
    ] {
        assert_eq!(st.by_type.get(k), 0);
    }
    assert_eq!(st.avg_resolution_time_ns, 0);
}

#[test]
fn alice_scenario() {
    let mut svc = TicketService::new();
    let alice = svc.create_user(s("Alice"), s("a@x.com"), 1_000);
    assert_eq!(alice.id, 1);
    let t = svc.create_ticket(s("Bug A"), s(""), TicketType::Bug, 1, 2, 2_000).unwrap();
    assert_eq!(t.id, 1);
    assert_eq!(t.status, TicketStatus::Open);
    let t = svc.assign_ticket(1, Some(1), 3_000).unwrap();
    assert_eq!(t.assignee_id, Some(1));
    let t = svc.update_ticket_status(1, TicketStatus::Resolved, 5_500).unwrap();
    assert_eq!(t.status, TicketStatus::Resolved);
    assert_eq!(t.resolved_at, Some(5_500));
    let st = svc.compute_stats();
    assert_eq!(st.total, 1);
    assert_eq!(st.by_status.resolved, 1);
    assert_eq!(st.by_status.open, 0);
    assert_eq!(st.by_type.bug, 1);
    assert_eq!(st.avg_resolution_time_ns, 5_500 - 2_000);
}

#[test]
fn stats_count_and_average_exactly() {
    let mut svc = with_user();
    svc.create_ticket(s("a"), s(""), TicketType::Bug, 1, 1, 100).unwrap();
    svc.create_ticket(s("b"), s(""), TicketType::Bug, 1, 1, 200).unwrap();
    svc.create_ticket(s("c"), s(""), TicketType::Maintenance, 1, 1, 300).unwrap();
    svc.create_ticket(s("d"), s(""), TicketType::Support, 1, 1, 400).unwrap();
    svc.update_ticket_status(1, TicketStatus::Resolved, 1_100).unwrap();
    svc.update_ticket_status(2, TicketStatus::Resolved, 1_201).unwrap();
    svc.update_ticket_status(2, TicketStatus::Closed, 1_300).unwrap();
    svc.update_ticket_status(3, TicketStatus::OnHold, 1_400).unwrap();
    svc.update_ticket_status(4, TicketStatus::InProgress, 1_500).unwrap();
    let st = svc.compute_stats();
    assert_eq!(st.total, 4);
    assert_eq!(
        (st.by_status.open, st.by_status.in_progress, st.by_status.on_hold),
        (0, 1, 1)
    );
    assert_eq!((st.by_status.resolved, st.by_status.closed), (1, 1));
    assert_eq!(st.by_type.get(TicketType::Bug), 2);
    assert_eq!(st.by_type.get(TicketType::Maintenance), 1);
    assert_eq!(st.by_type.get(TicketType::Support), 1);
    assert_eq!(st.by_type.get(TicketType::Feature), 0);
    assert_eq!(st.by_status.get(TicketStatus::Closed), 1);
    // (1000 + 1001) / 2, rounded down; the closed ticket keeps its stamp.
    assert_eq!(st.avg_resolution_time_ns, 1_000);
}

#[test]
fn deleting_a_referenced_user_leaves_tickets_dangling() {
    let mut svc = with_user();
    svc.create_user(s("Bob"), s("b@x.com"), 11);
    svc.create_ticket(s("t"), s("d"), TicketType::Bug, 1, 3, 20).unwrap();
    svc.assign_ticket(1, Some(2), 21).unwrap();
    assert_eq!(svc.delete_user(1), Ok(()));
    assert_eq!(svc.delete_user(2), Ok(()));
    let t = svc.get_ticket(1).unwrap();
    assert_eq!(t.created_by, 1);
    assert_eq!(t.assignee_id, Some(2));
    assert!(svc.get_user(1).is_none());
    assert_eq!(svc.delete_user(1), Err(StoreError::NotFound(Entity::User, 1)));
}

#[test]
fn assignment_checks_assignee_then_ticket() {
    let mut svc = with_user();
    svc.create_ticket(s("t"), s("d"), TicketType::Bug, 1, 3, 20).unwrap();
    assert_eq!(
        svc.assign_ticket(9, Some(5), 21).unwrap_err(),
        StoreError::NotFound(Entity::User, 5)
    );
    assert_eq!(
        svc.assign_ticket(9, Some(1), 21).unwrap_err(),
        StoreError::NotFound(Entity::Ticket, 9)
    );
    let t = svc.assign_ticket(1, Some(1), 22).unwrap();
    assert_eq!((t.assignee_id, t.updated_at), (Some(1), 22));
    let t = svc.assign_ticket(1, None, 23).unwrap();
    assert_eq!(t.assignee_id, None);
    assert_eq!(svc.last_time(), 23);
}

#[test]
fn ticket_fields_update_where_given() {
    let mut svc = with_user();
    svc.create_ticket(s("t"), s("d"), TicketType::Bug, 1, 3, 20).unwrap();
    let t = svc.update_ticket(1, Some(s("T2")), None, Some(TicketType::Feature), None, 30).unwrap();
    assert_eq!(t.title, "T2");
    assert_eq!(t.description, "d");
    assert_eq!(t.ticket_type, TicketType::Feature);
    assert_eq!(t.priority, 3);
    assert_eq!(t.updated_at, 30);
    let t = svc.update_ticket(1, None, Some(s("D2")), None, Some(5), 31).unwrap();
    assert_eq!((t.title.as_str(), t.description.as_str(), t.priority), ("T2", "D2", 5));
    assert_eq!(
        svc.update_ticket(7, None, None, None, Some(0), 32).unwrap_err(),
        StoreError::Validation(Invalid::Priority)
    );
    assert_eq!(
        svc.update_ticket(7, None, None, None, Some(2), 32).unwrap_err(),
        StoreError::NotFound(Entity::Ticket, 7)
    );
    assert_eq!(svc.get_ticket(1).unwrap().priority, 5);
}

#[test]
fn user_fields_update_where_given() {
    let mut svc = with_user();
    let u = svc.update_user(1, Some(s("Alicia")), None).unwrap();
    assert_eq!((u.name.as_str(), u.email.as_str()), ("Alicia", "a@x.com"));
    let u = svc.update_user(1, None, Some(s("z@x.com"))).unwrap();
    assert_eq!((u.name.as_str(), u.email.as_str()), ("Alicia", "z@x.com"));
    assert_eq!(u.created_at, 10);
    assert_eq!(svc.get_user(1).unwrap().email, "z@x.com");
    assert_eq!(
        svc.update_user(2, Some(s("x")), None).unwrap_err(),
        StoreError::NotFound(Entity::User, 2)
    );
    assert!(svc.user_exists(1));
    assert!(!svc.user_exists(2));
}

#[test]
fn listings_filter_in_identifier_order() {
    let mut svc = with_user();
    svc.create_user(s("Bob"), s("b@x.com"), 11);
    svc.create_ticket(s("a"), s(""), TicketType::Bug, 1, 3, 20).unwrap();
    svc.create_ticket(s("b"), s(""), TicketType::Feature, 1, 3, 21).unwrap();
    svc.create_ticket(s("c"), s(""), TicketType::Bug, 2, 3, 22).unwrap();
    svc.assign_ticket(3, Some(2), 23).unwrap();
    svc.assign_ticket(2, Some(2), 24).unwrap();
    svc.update_ticket_status(2, TicketStatus::Closed, 25).unwrap();
    let ids = |v: Vec<vex_backend::records::Ticket>| v.iter().map(|t| t.id).collect::<Vec<u64>>();
    assert_eq!(ids(svc.list_tickets()), vec![1, 2, 3]);
    assert_eq!(ids(svc.list_tickets_by_type(TicketType::Bug)), vec![1, 3]);
    assert_eq!(ids(svc.list_tickets_by_type(TicketType::Other)), Vec::<u64>::new());
    assert_eq!(ids(svc.list_tickets_by_status(TicketStatus::Open)), vec![1, 3]);
    assert_eq!(ids(svc.list_tickets_by_status(TicketStatus::Closed)), vec![2]);
    assert_eq!(ids(svc.list_tickets_by_assignee(2)), vec![2, 3]);
    assert_eq!(ids(svc.list_tickets_by_assignee(1)), Vec::<u64>::new());
    assert_eq!(ids(svc.list_tickets_by(TicketFilter::ByType(TicketType::Feature))), vec![2]);
    let names: Vec<String> = svc.list_users().into_iter().map(|u| u.name).collect();
    assert_eq!(names, vec![s("Alice"), s("Bob")]);
}

#[test]
fn restore_accepts_saved_data_and_rejects_corruption() {
    let mut svc = with_user();
    svc.create_ticket(s("a"), s(""), TicketType::Bug, 1, 3, 20).unwrap();
    svc.add_message(1, 1, s("hello"), 25).unwrap();
    let users = svc.list_users();
    let tickets = svc.list_tickets();
    let back = TicketService::restore(users.clone(), tickets.clone(), 1, 1, 25).unwrap();
    assert_eq!(back.last_user_id(), 1);
    assert_eq!(back.last_ticket_id(), 1);
    assert_eq!(back.last_time(), 25);
    assert_eq!(back.get_ticket(1).unwrap().messages[0].content, "hello");
    // Identifier above the saved counter.
    assert!(TicketService::restore(users.clone(), tickets.clone(), 0, 1, 25).is_none());
    // Clock behind a stored timestamp.
    assert!(TicketService::restore(users.clone(), tickets.clone(), 1, 1, 24).is_none());
    // Bad priority.
    let mut bad = tickets.clone();
    bad[0].priority = 9;
    assert!(TicketService::restore(users.clone(), bad, 1, 1, 25).is_none());
    // Misnumbered message.
    let mut bad = tickets.clone();
    bad[0].messages[0].id = 2;
    assert!(TicketService::restore(users.clone(), bad, 1, 1, 25).is_none());
    // Users out of order.
    let mut u2 = users[0].clone();
    u2.id = 2;
    let swapped = vec![u2, users[0].clone()];
    assert!(TicketService::restore(swapped, tickets, 2, 1, 25).is_none());
}
