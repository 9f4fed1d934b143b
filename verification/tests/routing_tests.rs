use hubbub::convo::Conversation;
use hubbub::errors::EngineError;
use hubbub::registry::ConversationRegistry;

#[test]
fn recipients_exclude_sender_and_banned() {
    let mut c = Conversation::new(1, String::from("room"), 10);
    c.add_admin(20);
    c.add_user(30);
    c.add_user(40);
    c.ban(40);
    // 40 was evicted and banned; 30 is the sender; 10 and 20 remain.
    let mut r = c.recipients(30);
    r.sort();
    assert_eq!(r, vec![10, 20]);
    // Excluding the owner leaves the admin and the user.
    let mut r = c.recipients(10);
    r.sort();
    assert_eq!(r, vec![20, 30]);
}

#[test]
fn recipients_have_no_duplicates() {
    let mut c = Conversation::new(1, String::from("room"), 10);
    // The owner also sits in both member sets; it must appear once.
    c.add_admin(10);
    c.add_user(10);
    c.add_user(20);
    let mut r = c.recipients(99);
    r.sort();
    assert_eq!(r, vec![10, 20]);
}

#[test]
fn route_filters_unregistered_participants() {
    let mut reg = ConversationRegistry::new();
    assert_eq!(reg.register_participant(10), Ok(()));
    assert_eq!(reg.register_participant(20), Ok(()));
    assert_eq!(reg.create_conversation(1, 10, String::from("room")), Ok(()));
    assert_eq!(reg.join(1, 20), Ok(()));

    // 20 deregisters: still a member, but no longer routed to.
    reg.deregister_participant(20);
    let r = reg.route(1, 99).unwrap();
    assert_eq!(r, vec![10]);

    // Re-registering the same id restores delivery without re-joining.
    assert_eq!(reg.register_participant(20), Ok(()));
    let mut r = reg.route(1, 99).unwrap();
    r.sort();
    assert_eq!(r, vec![10, 20]);

    // The sender is excluded from its own broadcast.
    let r = reg.route(1, 10).unwrap();
    assert_eq!(r, vec![20]);
}

#[test]
fn route_unknown_conversation_is_not_found() {
    let reg = ConversationRegistry::new();
    assert_eq!(reg.route(1, 0), Err(EngineError::NotFound));
}

#[test]
fn registry_id_conflicts_and_lookups() {
    let mut reg = ConversationRegistry::new();
    assert_eq!(reg.register_participant(10), Ok(()));
    assert_eq!(reg.register_participant(10), Err(EngineError::Conflict));

    // A conversation needs a registered owner.
    assert_eq!(
        reg.create_conversation(1, 99, String::from("room")),
        Err(EngineError::Conflict)
    );
    assert_eq!(reg.create_conversation(1, 10, String::from("room")), Ok(()));
    assert_eq!(
        reg.create_conversation(1, 10, String::from("again")),
        Err(EngineError::Conflict)
    );

    assert!(reg.get_convo(1).is_some());
    assert!(reg.get_convo(2).is_none());
    assert!(reg.get_participant(10).is_some());
    assert!(reg.get_participant(11).is_none());
    assert!(reg.check_permissions(1, 10));
    assert!(!reg.check_permissions(1, 11));
    assert!(!reg.check_permissions(2, 10));
}

#[test]
fn join_errors() {
    let mut reg = ConversationRegistry::new();
    assert_eq!(reg.register_participant(10), Ok(()));
    assert_eq!(reg.register_participant(20), Ok(()));
    assert_eq!(reg.create_conversation(1, 10, String::from("room")), Ok(()));

    assert_eq!(reg.join(2, 20), Err(EngineError::NotFound));
    assert_eq!(reg.join(1, 99), Err(EngineError::NotFound));
    assert_eq!(reg.join(1, 20), Ok(()));
    assert_eq!(reg.join(1, 20), Err(EngineError::AlreadyMember));
    // The owner already belongs implicitly.
    assert_eq!(reg.join(1, 10), Err(EngineError::AlreadyMember));
}
