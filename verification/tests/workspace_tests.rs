use hubbub::nick::Nick;
use hubbub::selection::Selection;
use hubbub::workspace::{Action, Change, Message, Workspace};

#[test]
fn replace_works() {
    let mut ws = Workspace {
        messages: vec![],
        buffers: vec![Message {
            sender_ip: 0,
            sender_nick: Nick::Anon,
            text: String::new(),
            stamp: 0,
        }],
    };

    ws.change(Change {
        sender_ip: 0,
        sender_nick: Nick::Anon,
        stamp: 0,
        action: Action::Replace(
            Selection { start: 4, end: 8 },
            String::from("Ohhhh MAN! X3"),
        ),
    });

    assert_eq!(ws.buffers[0].text, String::from("Ohhhh MAN! X3"));

    ws.change(Change {
        sender_ip: 0,
        sender_nick: Nick::Anon,
        stamp: 0,
        action: Action::Replace(Selection { start: 4, end: 8 }, String::from("")),
    });
    assert_eq!(ws.buffers[0].text, String::from("OhhhN! X3"));
}

#[test]
fn change_creates_draft_lazily() {
    let mut ws = Workspace::new();
    assert_eq!(ws.buffers.len(), 0);
    ws.change(Change {
        sender_ip: 7,
        sender_nick: Nick::Anon,
        stamp: 1,
        action: Action::Replace(Selection { start: 0, end: 0 }, String::from("abc")),
    });
    assert_eq!(ws.buffers.len(), 1);
    assert_eq!(ws.buffers[0].sender_ip, 7);
    assert_eq!(ws.buffers[0].text, String::from("abc"));
    assert_eq!(ws.messages.len(), 0);
}

#[test]
fn drafts_stay_separate_per_sender() {
    let mut ws = Workspace::new();
    ws.change(Change {
        sender_ip: 1,
        sender_nick: Nick::Anon,
        stamp: 0,
        action: Action::Replace(Selection { start: 0, end: 0 }, String::from("one")),
    });
    ws.change(Change {
        sender_ip: 2,
        sender_nick: Nick::Anon,
        stamp: 0,
        action: Action::Replace(Selection { start: 0, end: 0 }, String::from("two")),
    });
    assert_eq!(ws.buffers.len(), 2);
    assert_eq!(ws.buffers[0].text, String::from("one"));
    assert_eq!(ws.buffers[1].text, String::from("two"));
}

#[test]
fn solidify_moves_draft_to_log_and_resets() {
    let mut ws = Workspace::new();
    ws.change(Change {
        sender_ip: 5,
        sender_nick: Nick::Anon,
        stamp: 10,
        action: Action::Replace(Selection { start: 0, end: 0 }, String::from("Hello")),
    });
    ws.change(Change {
        sender_ip: 5,
        sender_nick: Nick::Anon,
        stamp: 11,
        action: Action::Replace(Selection { start: 0, end: 5 }, String::from("Hi")),
    });
    assert_eq!(ws.buffers[0].text, String::from("Hi"));

    ws.change(Change {
        sender_ip: 5,
        sender_nick: Nick::new(String::from("ada")).unwrap(),
        stamp: 12,
        action: Action::Solidify,
    });
    assert_eq!(ws.messages.len(), 1);
    assert_eq!(ws.messages[0].text, String::from("Hi"));
    assert_eq!(ws.messages[0].sender_ip, 5);
    assert_eq!(ws.messages[0].stamp, 12);
    assert_eq!(ws.buffers[0].text, String::from(""));

    ws.change(Change {
        sender_ip: 5,
        sender_nick: Nick::Anon,
        stamp: 13,
        action: Action::Replace(Selection { start: 3, end: 9 }, String::from("next")),
    });
    assert_eq!(ws.buffers[0].text, String::from("next"));
    assert_eq!(ws.messages.len(), 1);
}

#[test]
fn replace_same_state_is_deterministic() {
    let make = || Message {
        sender_ip: 0,
        sender_nick: Nick::Anon,
        text: String::from("abcdef"),
        stamp: 0,
    };
    let mut ws1 = Workspace { messages: vec![], buffers: vec![make()] };
    let mut ws2 = Workspace { messages: vec![], buffers: vec![make()] };
    let change = |s: usize, e: usize, t: &str| Change {
        sender_ip: 0,
        sender_nick: Nick::Anon,
        stamp: 0,
        action: Action::Replace(Selection { start: s, end: e }, String::from(t)),
    };
    ws1.change(change(2, 4, "XY"));
    ws2.change(change(2, 4, "XY"));
    assert_eq!(ws1.buffers[0].text, ws2.buffers[0].text);
    assert_eq!(ws1.buffers[0].text, String::from("abXYef"));

    // Not idempotent across a state change: the same selection against the
    // mutated buffer cuts different characters.
    ws1.change(change(2, 4, "XY"));
    assert_eq!(ws1.buffers[0].text, String::from("abXYef"));
    ws1.change(change(2, 4, ""));
    assert_eq!(ws1.buffers[0].text, String::from("abef"));
}

#[test]
fn inverted_and_oversized_selections_are_clamped() {
    let mut ws = Workspace::new();
    ws.change(Change {
        sender_ip: 1,
        sender_nick: Nick::Anon,
        stamp: 0,
        action: Action::Replace(Selection { start: 0, end: 0 }, String::from("hello")),
    });
    // Inverted selection: (4, 1) behaves as (1, 4).
    ws.change(Change {
        sender_ip: 1,
        sender_nick: Nick::Anon,
        stamp: 0,
        action: Action::Replace(Selection { start: 4, end: 1 }, String::from("-")),
    });
    assert_eq!(ws.buffers[0].text, String::from("h-o"));
    // Selection past the end: clamped to the buffer length.
    ws.change(Change {
        sender_ip: 1,
        sender_nick: Nick::Anon,
        stamp: 0,
        action: Action::Replace(Selection { start: 100, end: 200 }, String::from("!")),
    });
    assert_eq!(ws.buffers[0].text, String::from("h-o!"));
}
