use hubbub::convo::Conversation;
use hubbub::errors::EngineError;
use hubbub::nick::Nick;
use hubbub::perm::{may_mutate, Permissions};
use hubbub::selection::Selection;

#[test]
fn owner_precedence_dominates_membership() {
    // The owner resolves to Owner even when also present in the user set.
    let mut c = Conversation::new(1, String::from("room"), 10);
    c.add_user(10);
    assert_eq!(c.get_user_permissions(10), Some(Permissions::Owner));
}

#[test]
fn banned_precedes_admin_and_user() {
    let mut c = Conversation::new(1, String::from("room"), 10);
    c.add_user(20);
    c.add_admin(30);
    c.ban(20);
    c.ban(30);
    assert_eq!(c.get_user_permissions(20), Some(Permissions::Banned));
    assert_eq!(c.get_user_permissions(30), Some(Permissions::Banned));
    // Banning evicted them from the member sets.
    assert!(!c.users().contains(&20));
    assert!(!c.admins().contains(&30));
}

#[test]
fn ban_of_owner_is_refused() {
    let mut c = Conversation::new(1, String::from("room"), 10);
    c.ban(10);
    assert!(!c.banned().contains(&10));
    assert_eq!(c.get_user_permissions(10), Some(Permissions::Owner));
}

#[test]
fn banned_id_cannot_be_added_back_while_banned() {
    let mut c = Conversation::new(1, String::from("room"), 10);
    c.ban(20);
    c.add_user(20);
    c.add_admin(20);
    assert!(!c.users().contains(&20));
    assert!(!c.admins().contains(&20));
    assert_eq!(c.get_user_permissions(20), Some(Permissions::Banned));
}

#[test]
fn levels_and_may_mutate() {
    let mut c = Conversation::new(1, String::from("room"), 10);
    c.add_admin(20);
    c.add_user(30);
    c.ban(40);
    assert_eq!(c.get_user_permissions(10), Some(Permissions::Owner));
    assert_eq!(c.get_user_permissions(20), Some(Permissions::Admin));
    assert_eq!(c.get_user_permissions(30), Some(Permissions::User));
    assert_eq!(c.get_user_permissions(40), Some(Permissions::Banned));
    assert_eq!(c.get_user_permissions(50), Some(Permissions::Apart));
    assert!(may_mutate(Permissions::Owner));
    assert!(may_mutate(Permissions::Admin));
    assert!(may_mutate(Permissions::User));
    assert!(!may_mutate(Permissions::Banned));
    assert!(!may_mutate(Permissions::Apart));
}

#[test]
fn denied_replace_and_commit_change_nothing() {
    let mut c = Conversation::new(1, String::from("room"), 10);
    let r = c.apply_replace(10, Selection { start: 0, end: 0 }, &String::from("hi"));
    assert_eq!(r, Ok(()));
    assert_eq!(c.buffer(), &String::from("hi"));

    // An Apart participant is rejected and leaves everything unchanged.
    let r = c.apply_replace(99, Selection { start: 0, end: 2 }, &String::from("bye"));
    assert_eq!(r, Err(EngineError::Denied));
    assert_eq!(c.buffer(), &String::from("hi"));

    let r = c.draft_replace(
        99,
        Nick::Anon,
        0,
        Selection { start: 0, end: 0 },
        String::from("sneak"),
    );
    assert_eq!(r, Err(EngineError::Denied));
    assert_eq!(c.workspace().buffers.len(), 0);

    let r = c.commit_draft(99, Nick::Anon, 0);
    assert_eq!(r, Err(EngineError::Denied));
    assert_eq!(c.workspace().messages.len(), 0);

    // The same for a banned participant.
    c.add_user(20);
    c.ban(20);
    let r = c.apply_replace(20, Selection { start: 0, end: 2 }, &String::from("bye"));
    assert_eq!(r, Err(EngineError::Denied));
    assert_eq!(c.buffer(), &String::from("hi"));
    let r = c.commit_draft(20, Nick::Anon, 0);
    assert_eq!(r, Err(EngineError::Denied));
    assert_eq!(c.workspace().messages.len(), 0);
}

#[test]
fn set_buffer_is_permission_gated() {
    let mut c = Conversation::new(1, String::from("room"), 10);
    c.set_buffer(10, String::from("owner wrote"));
    assert_eq!(c.buffer(), &String::from("owner wrote"));
    c.set_buffer(99, String::from("apart wrote"));
    assert_eq!(c.buffer(), &String::from("owner wrote"));
}

#[test]
fn nick_validation() {
    assert!(Nick::new(String::from("a")).is_ok());
    assert!(Nick::new(String::from("a-perfectly-fine-nickname")).is_ok());
    assert!(Nick::new(String::from("")).is_err());
    // 31 characters: the longest accepted.
    assert!(Nick::new(String::from("abcdefghijklmnopqrstuvwxyzabcde")).is_ok());
    // 32 characters: rejected.
    assert!(Nick::new(String::from("abcdefghijklmnopqrstuvwxyzabcdef")).is_err());
    match Nick::new(String::from("ada")).unwrap() {
        Nick::Named(s) => assert_eq!(s, String::from("ada")),
        Nick::Anon => panic!("validated nickname lost its text"),
    }
}

#[test]
fn selection_to_range_and_clamp() {
    let s = Selection { start: 9, end: 3 };
    let r = s.to_range();
    assert_eq!(r.start, 3);
    assert_eq!(r.end, 9);
    let c = s.clamp(0, 5);
    assert_eq!(c.start, 5);
    assert_eq!(c.end, 3);
    let d = Selection { start: 1, end: 7 }.clamp(2, 5);
    assert_eq!(d.start, 2);
    assert_eq!(d.end, 5);
}

#[test]
fn normalize_orders_and_clamps() {
    assert_eq!(hubbub::selection::normalize(8, 3, 5), (3, 5));
    assert_eq!(hubbub::selection::normalize(2, 2, 10), (2, 2));
    assert_eq!(hubbub::selection::normalize(100, 4, 6), (4, 6));
    assert_eq!(hubbub::selection::normalize(0, 0, 0), (0, 0));
    assert_eq!(hubbub::selection::normalize(usize::MAX, 0, 3), (0, 3));
    assert_eq!(
        hubbub::selection::normalize(usize::MAX, usize::MAX, 7),
        (7, 7)
    );
}
