use hubbub::dispatch::{dispatch, Command, EditTarget, Effect, Update};
use hubbub::errors::EngineError;
use hubbub::nick::Nick;
use hubbub::registry::ConversationRegistry;

fn replace_cmd(convo: usize, user: usize, start: usize, end: usize, text: &str) -> Command {
    Command::Replace {
        convo_id: convo,
        participant_id: user,
        start,
        end,
        text: String::from(text),
        target: EditTarget::Committed,
    }
}

fn draft_cmd(convo: usize, user: usize, start: usize, end: usize, text: &str) -> Command {
    Command::Replace {
        convo_id: convo,
        participant_id: user,
        start,
        end,
        text: String::from(text),
        target: EditTarget::Draft,
    }
}

fn buffer_of(reg: &ConversationRegistry, convo: usize) -> String {
    reg.get_convo(convo).unwrap().buffer().clone()
}

#[test]
fn replace_then_membership_scenario() {
    let mut reg = ConversationRegistry::new();
    assert_eq!(reg.register_participant(1), Ok(()));
    assert_eq!(reg.register_participant(2), Ok(()));

    // Create conversation C1 with owner U1.
    let eff = dispatch(
        &mut reg,
        Command::NewConversation {
            convo_id: 100,
            owner_id: 1,
            name: String::from("C1"),
        },
        0,
    );
    assert!(matches!(eff, Effect::Done));

    // U1 replaces (0,0,"hi"): the committed buffer becomes "hi".
    let eff = dispatch(&mut reg, replace_cmd(100, 1, 0, 0, "hi"), 0);
    match eff {
        Effect::Broadcast { recipients, update } => {
            assert_eq!(recipients, Vec::<usize>::new());
            match update {
                Update::Buffer { text } => assert_eq!(text, String::from("hi")),
                _ => panic!("expected a buffer snapshot"),
            }
        }
        _ => panic!("expected a broadcast"),
    }
    assert_eq!(buffer_of(&reg, 100), String::from("hi"));

    // U2 is Apart: its replace is silently dropped, the buffer unchanged.
    let eff = dispatch(&mut reg, replace_cmd(100, 2, 0, 2, "bye"), 0);
    assert!(matches!(eff, Effect::Silent));
    assert_eq!(buffer_of(&reg, 100), String::from("hi"));

    // Add U2 as member; now the same replace goes through.
    assert_eq!(reg.join(100, 2), Ok(()));
    let eff = dispatch(&mut reg, replace_cmd(100, 2, 0, 2, "bye"), 0);
    match eff {
        Effect::Broadcast { recipients, update } => {
            assert_eq!(recipients, vec![1]);
            match update {
                Update::Buffer { text } => assert_eq!(text, String::from("bye")),
                _ => panic!("expected a buffer snapshot"),
            }
        }
        _ => panic!("expected a broadcast"),
    }
    assert_eq!(buffer_of(&reg, 100), String::from("bye"));
}

#[test]
fn draft_then_commit_scenario() {
    let mut reg = ConversationRegistry::new();
    assert_eq!(reg.register_participant(1), Ok(()));
    assert_eq!(
        reg.set_nick(1, Nick::new(String::from("ada")).unwrap()),
        Ok(())
    );
    let eff = dispatch(
        &mut reg,
        Command::NewConversation {
            convo_id: 100,
            owner_id: 1,
            name: String::from("C1"),
        },
        0,
    );
    assert!(matches!(eff, Effect::Done));

    // U1 drafts "Hello", then replaces (0,5) with "Hi": draft = "Hi".
    let eff = dispatch(&mut reg, draft_cmd(100, 1, 0, 0, "Hello"), 1);
    match eff {
        Effect::Broadcast { update, .. } => match update {
            Update::Draft { participant_id, text } => {
                assert_eq!(participant_id, 1);
                assert_eq!(text, String::from("Hello"));
            }
            _ => panic!("expected a draft update"),
        },
        _ => panic!("expected a broadcast"),
    }
    let eff = dispatch(&mut reg, draft_cmd(100, 1, 0, 5, "Hi"), 2);
    match eff {
        Effect::Broadcast { update, .. } => match update {
            Update::Draft { text, .. } => assert_eq!(text, String::from("Hi")),
            _ => panic!("expected a draft update"),
        },
        _ => panic!("expected a broadcast"),
    }

    // Commit: the log holds exactly one entry with text "Hi"; the draft
    // resets to empty.
    let eff = dispatch(
        &mut reg,
        Command::Commit { convo_id: 100, participant_id: 1 },
        7,
    );
    match eff {
        Effect::Broadcast { update, .. } => match update {
            Update::Committed { participant_id, text, stamp } => {
                assert_eq!(participant_id, 1);
                assert_eq!(text, String::from("Hi"));
                assert_eq!(stamp, 7);
            }
            _ => panic!("expected a committed entry"),
        },
        _ => panic!("expected a broadcast"),
    }
    let convo = reg.get_convo(100).unwrap();
    let log = &convo.workspace().messages;
    assert_eq!(log.len(), 1);
    assert_eq!(log[0].text, String::from("Hi"));
    assert_eq!(log[0].sender_ip, 1);
    assert_eq!(log[0].stamp, 7);
    match &log[0].sender_nick {
        Nick::Named(s) => assert_eq!(s, &String::from("ada")),
        Nick::Anon => panic!("the commit should carry the current nickname"),
    }
    assert_eq!(
        convo.workspace().draft_of(1).unwrap(),
        &String::from("")
    );
}

#[test]
fn snapshot_and_cursor_commands() {
    let mut reg = ConversationRegistry::new();
    assert_eq!(reg.register_participant(1), Ok(()));
    assert_eq!(reg.register_participant(2), Ok(()));
    let _ = dispatch(
        &mut reg,
        Command::NewConversation {
            convo_id: 5,
            owner_id: 1,
            name: String::from("C"),
        },
        0,
    );
    let _ = dispatch(&mut reg, replace_cmd(5, 1, 0, 0, "state"), 0);

    // The snapshot goes to the requester only, verbatim.
    let eff = dispatch(
        &mut reg,
        Command::RequestSnapshot { convo_id: 5, participant_id: 1 },
        0,
    );
    match eff {
        Effect::Reply { text } => assert_eq!(text, String::from("state")),
        _ => panic!("expected a reply"),
    }

    // An Apart participant's query is silently dropped.
    let eff = dispatch(
        &mut reg,
        Command::RequestSnapshot { convo_id: 5, participant_id: 2 },
        0,
    );
    assert!(matches!(eff, Effect::Silent));

    // A cursor move is broadcast, never persisted.
    assert_eq!(reg.join(5, 2), Ok(()));
    let eff = dispatch(
        &mut reg,
        Command::MoveCursor { convo_id: 5, participant_id: 2, position: 3 },
        0,
    );
    match eff {
        Effect::Broadcast { recipients, update } => {
            assert_eq!(recipients, vec![1]);
            match update {
                Update::Cursor { participant_id, position } => {
                    assert_eq!(participant_id, 2);
                    assert_eq!(position, 3);
                }
                _ => panic!("expected a cursor hint"),
            }
        }
        _ => panic!("expected a broadcast"),
    }
    assert_eq!(buffer_of(&reg, 5), String::from("state"));
}

#[test]
fn dispatch_failures_are_surfaced() {
    let mut reg = ConversationRegistry::new();
    assert_eq!(reg.register_participant(1), Ok(()));

    // Unknown conversation ids.
    let eff = dispatch(&mut reg, replace_cmd(9, 1, 0, 0, "x"), 0);
    assert!(matches!(eff, Effect::Failed { error: EngineError::NotFound }));
    let eff = dispatch(
        &mut reg,
        Command::Commit { convo_id: 9, participant_id: 1 },
        0,
    );
    assert!(matches!(eff, Effect::Failed { error: EngineError::NotFound }));
    let eff = dispatch(
        &mut reg,
        Command::RequestSnapshot { convo_id: 9, participant_id: 1 },
        0,
    );
    assert!(matches!(eff, Effect::Failed { error: EngineError::NotFound }));
    let eff = dispatch(
        &mut reg,
        Command::MoveCursor { convo_id: 9, participant_id: 1, position: 0 },
        0,
    );
    assert!(matches!(eff, Effect::Failed { error: EngineError::NotFound }));

    // Creation conflicts.
    let eff = dispatch(
        &mut reg,
        Command::NewParticipant { participant_id: 1 },
        0,
    );
    assert!(matches!(eff, Effect::Failed { error: EngineError::Conflict }));
    let eff = dispatch(
        &mut reg,
        Command::NewConversation { convo_id: 3, owner_id: 77, name: String::from("n") },
        0,
    );
    assert!(matches!(eff, Effect::Failed { error: EngineError::Conflict }));

    // A fresh participant registers fine.
    let eff = dispatch(
        &mut reg,
        Command::NewParticipant { participant_id: 2 },
        0,
    );
    assert!(matches!(eff, Effect::Done));
}

#[test]
fn commit_of_empty_draft_logs_empty_entry() {
    let mut reg = ConversationRegistry::new();
    assert_eq!(reg.register_participant(1), Ok(()));
    let _ = dispatch(
        &mut reg,
        Command::NewConversation { convo_id: 1, owner_id: 1, name: String::from("C") },
        0,
    );
    let eff = dispatch(
        &mut reg,
        Command::Commit { convo_id: 1, participant_id: 1 },
        3,
    );
    match eff {
        Effect::Broadcast { update, .. } => match update {
            Update::Committed { text, .. } => assert_eq!(text, String::from("")),
            _ => panic!("expected a committed entry"),
        },
        _ => panic!("expected a broadcast"),
    }
    let log = &reg.get_convo(1).unwrap().workspace().messages;
    assert_eq!(log.len(), 1);
    assert_eq!(log[0].text, String::from(""));
}
