//! The command dispatcher: maps one inbound, already-parsed command to the
//! registry and conversation operations, and answers with the effect the
//! transport layer must carry out.
//!
//! The engine trusts the supplied participant identifier; identity is the
//! transport layer's concern, as is the caller-assigned timestamp handed in
//! beside the command. A denied mutation or query is swallowed into a
//! silent no-op — no change, no broadcast, no acknowledgment — uniformly
//! across all command kinds; unknown identifiers and creation conflicts
//! are surfaced for an explicit failure acknowledgment.

use vstd::prelude::*;
use crate::convo::{ConvoModel, fresh_convo, spec_eligible, spec_level};
use crate::errors::EngineError;
use crate::nick::{Nick, nick_chars};
use crate::perm::spec_may_mutate;
use crate::registry::{
    ConversationRegistry, PartModel, RegistryModel, convo_at, has_convo, has_part,
    lemma_convo_at_pin, nick_of,
};
use crate::selection::Selection;
use crate::textbuf::spliced;
use crate::workspace::{
    ActionModel, ChangeModel, apply_change, draft_text, lemma_apply_change_has_draft,
};

verus! {

/// Which buffer a replace targets: the conversation's committed buffer, or
/// the issuing participant's own draft.
#[derive(Clone, Copy, PartialEq, Eq, Structural, Debug)]
pub enum EditTarget {
    Committed,
    Draft,
}

/// One inbound command, already decoded by the transport layer.
#[derive(Debug)]
pub enum Command {
    NewConversation { convo_id: usize, owner_id: usize, name: String },
    NewParticipant { participant_id: usize },
    Replace {
        convo_id: usize,
        participant_id: usize,
        start: usize,
        end: usize,
        text: String,
        target: EditTarget,
    },
    Commit { convo_id: usize, participant_id: usize },
    RequestSnapshot { convo_id: usize, participant_id: usize },
    MoveCursor { convo_id: usize, participant_id: usize, position: usize },
}

/// The state update a broadcast carries to each recipient.
#[derive(Debug)]
pub enum Update {
    /// A new committed-buffer snapshot.
    Buffer { text: String },
    /// A participant's live draft after an edit.
    Draft { participant_id: usize, text: String },
    /// A draft solidified into the message log.
    Committed { participant_id: usize, text: String, stamp: u64 },
    /// An ephemeral presence hint; never persisted.
    Cursor { participant_id: usize, position: usize },
}

/// What the transport layer must do after a command was processed.
#[derive(Debug)]
pub enum Effect {
    /// Send `update` to every id in `recipients`; a recipient without a
    /// live connection is simply skipped.
    Broadcast { recipients: Vec<usize>, update: Update },
    /// Reply to the requester only.
    Reply { text: String },
    /// Acknowledge success; nothing to send.
    Done,
    /// A denied operation: no change was made and nothing is sent.
    Silent,
    /// A failed operation to acknowledge explicitly.
    Failed { error: EngineError },
}

/// A correct recipient list for a broadcast of `cid` that excludes
/// `sender`: exactly the eligible members of the conversation that are
/// registered participants, each once.
pub open spec fn good_recipients(
    reg: RegistryModel,
    cid: usize,
    sender: usize,
    list: Seq<usize>,
) -> bool {
    &&& (forall|u: usize|
        list.contains(u) <==> (spec_eligible(reg.convos[convo_at(reg.convos, cid)], u, sender)
            && has_part(reg.parts, u)))
    &&& list.no_duplicates()
}

/// A broadcast's recipient list never includes the excluded sender nor any
/// id currently in the conversation's banned set, even when that id is
/// also present in a member set.
pub proof fn lemma_broadcast_excludes(
    reg: RegistryModel,
    cid: usize,
    sender: usize,
    list: Seq<usize>,
    u: usize,
)
    requires
        good_recipients(reg, cid, sender, list),
        u == sender || reg.convos[convo_at(reg.convos, cid)].banned.contains(u),
    ensures
        !list.contains(u),
{
}

/// The draft change a `Replace` against the draft buffer performs.
pub open spec fn draft_replace_change(
    reg: RegistryModel,
    pid: usize,
    stamp: u64,
    start: int,
    end: int,
    text: Seq<char>,
) -> ChangeModel {
    ChangeModel {
        sender_ip: pid as u128,
        sender_nick: nick_of(reg.parts, pid),
        stamp: stamp,
        action: ActionModel::Replace(start, end, text),
    }
}

/// The draft change a `Commit` performs.
pub open spec fn commit_change(reg: RegistryModel, pid: usize, stamp: u64) -> ChangeModel {
    ChangeModel {
        sender_ip: pid as u128,
        sender_nick: nick_of(reg.parts, pid),
        stamp: stamp,
        action: ActionModel::Solidify,
    }
}

/// Processes one command against the registry and says what the transport
/// layer must send. `stamp` is the caller-assigned timestamp recorded with
/// draft edits and commits.
pub fn dispatch(reg: &mut ConversationRegistry, cmd: Command, stamp: u64) -> (r: Effect)
    requires
        old(reg).wf(),
    ensures
        final(reg).wf(),
        match cmd {
            Command::NewConversation { convo_id, owner_id, name } => {
                let ok = !has_convo(old(reg)@.convos, convo_id) && has_part(
                    old(reg)@.parts,
                    owner_id,
                );
                &&& (ok ==> r == Effect::Done && final(reg)@ == (RegistryModel {
                    convos: old(reg)@.convos.push(fresh_convo(convo_id, name@, owner_id)),
                    ..old(reg)@
                }))
                &&& (!ok ==> r == (Effect::Failed { error: EngineError::Conflict }) && final(reg)@
                    == old(reg)@)
            },
            Command::NewParticipant { participant_id } => {
                let ok = !has_part(old(reg)@.parts, participant_id);
                &&& (ok ==> r == Effect::Done && final(reg)@ == (RegistryModel {
                    parts: old(reg)@.parts.push(PartModel { id: participant_id, nick: None }),
                    ..old(reg)@
                }))
                &&& (!ok ==> r == (Effect::Failed { error: EngineError::Conflict }) && final(reg)@
                    == old(reg)@)
            },
            Command::Replace { convo_id, participant_id, start, end, text, target } => {
                &&& (!has_convo(old(reg)@.convos, convo_id) ==> r == (Effect::Failed {
                    error: EngineError::NotFound,
                }) && final(reg)@ == old(reg)@)
                &&& (has_convo(old(reg)@.convos, convo_id) ==> {
                    let ci = convo_at(old(reg)@.convos, convo_id);
                    let c0 = old(reg)@.convos[ci];
                    &&& (!spec_may_mutate(spec_level(c0, participant_id)) ==> r == Effect::Silent
                        && final(reg)@ == old(reg)@)
                    &&& (spec_may_mutate(spec_level(c0, participant_id)) ==> match target {
                        EditTarget::Committed => {
                            &&& final(reg)@ == (RegistryModel {
                                convos: old(reg)@.convos.update(
                                    ci,
                                    ConvoModel {
                                        buffer: spliced(
                                            c0.buffer,
                                            start as int,
                                            end as int,
                                            text@,
                                        ),
                                        ..c0
                                    },
                                ),
                                ..old(reg)@
                            })
                            &&& (r matches Effect::Broadcast { recipients, update }
                                && good_recipients(
                                final(reg)@,
                                convo_id,
                                participant_id,
                                recipients@,
                            ) && (update matches Update::Buffer { text: snap } && snap@ == spliced(
                                c0.buffer,
                                start as int,
                                end as int,
                                text@,
                            )))
                        },
                        EditTarget::Draft => {
                            let cm = draft_replace_change(
                                old(reg)@,
                                participant_id,
                                stamp,
                                start as int,
                                end as int,
                                text@,
                            );
                            &&& final(reg)@ == (RegistryModel {
                                convos: old(reg)@.convos.update(
                                    ci,
                                    ConvoModel {
                                        workspace: apply_change(c0.workspace, cm),
                                        ..c0
                                    },
                                ),
                                ..old(reg)@
                            })
                            &&& (r matches Effect::Broadcast { recipients, update }
                                && good_recipients(
                                final(reg)@,
                                convo_id,
                                participant_id,
                                recipients@,
                            ) && (update matches Update::Draft { participant_id: p2, text: dtext }
                                && p2 == participant_id && dtext@ == draft_text(
                                apply_change(c0.workspace, cm),
                                participant_id as u128,
                            )))
                        },
                    })
                })
            },
            Command::Commit { convo_id, participant_id } => {
                &&& (!has_convo(old(reg)@.convos, convo_id) ==> r == (Effect::Failed {
                    error: EngineError::NotFound,
                }) && final(reg)@ == old(reg)@)
                &&& (has_convo(old(reg)@.convos, convo_id) ==> {
                    let ci = convo_at(old(reg)@.convos, convo_id);
                    let c0 = old(reg)@.convos[ci];
                    let cm = commit_change(old(reg)@, participant_id, stamp);
                    &&& (!spec_may_mutate(spec_level(c0, participant_id)) ==> r == Effect::Silent
                        && final(reg)@ == old(reg)@)
                    &&& (spec_may_mutate(spec_level(c0, participant_id)) ==> {
                        &&& final(reg)@ == (RegistryModel {
                            convos: old(reg)@.convos.update(
                                ci,
                                ConvoModel { workspace: apply_change(c0.workspace, cm), ..c0 },
                            ),
                            ..old(reg)@
                        })
                        &&& (r matches Effect::Broadcast { recipients, update }
                            && good_recipients(
                            final(reg)@,
                            convo_id,
                            participant_id,
                            recipients@,
                        ) && (update matches Update::Committed {
                            participant_id: p2,
                            text: moved,
                            stamp: s2,
                        } && p2 == participant_id && s2 == stamp && moved@ == draft_text(
                            c0.workspace,
                            participant_id as u128,
                        )))
                    })
                })
            },
            Command::RequestSnapshot { convo_id, participant_id } => {
                &&& (!has_convo(old(reg)@.convos, convo_id) ==> r == (Effect::Failed {
                    error: EngineError::NotFound,
                }) && final(reg)@ == old(reg)@)
                &&& (has_convo(old(reg)@.convos, convo_id) ==> {
                    let c0 = old(reg)@.convos[convo_at(old(reg)@.convos, convo_id)];
                    &&& final(reg)@ == old(reg)@
                    &&& (!spec_may_mutate(spec_level(c0, participant_id)) ==> r == Effect::Silent)
                    &&& (spec_may_mutate(spec_level(c0, participant_id)) ==> (r matches
                        Effect::Reply { text: snap } && snap@ == c0.buffer))
                })
            },
            Command::MoveCursor { convo_id, participant_id, position } => {
                &&& (!has_convo(old(reg)@.convos, convo_id) ==> r == (Effect::Failed {
                    error: EngineError::NotFound,
                }) && final(reg)@ == old(reg)@)
                &&& (has_convo(old(reg)@.convos, convo_id) ==> {
                    let c0 = old(reg)@.convos[convo_at(old(reg)@.convos, convo_id)];
                    &&& final(reg)@ == old(reg)@
                    &&& (!spec_may_mutate(spec_level(c0, participant_id)) ==> r == Effect::Silent)
                    &&& (spec_may_mutate(spec_level(c0, participant_id)) ==> (r matches
                        Effect::Broadcast { recipients, update } && good_recipients(
                        old(reg)@,
                        convo_id,
                        participant_id,
                        recipients@,
                    ) && (update matches Update::Cursor { participant_id: p2, position: pos2 }
                        && p2 == participant_id && pos2 == position)))
                })
            },
        },
{
    match cmd {
        Command::NewConversation { convo_id, owner_id, name } => {
            match reg.create_conversation(convo_id, owner_id, name) {
                Ok(_) => Effect::Done,
                Err(e) => Effect::Failed { error: e },
            }
        }
        Command::NewParticipant { participant_id } => {
            match reg.register_participant(participant_id) {
                Ok(_) => Effect::Done,
                Err(e) => Effect::Failed { error: e },
            }
        }
        Command::Replace { convo_id, participant_id, start, end, text, target } => {
            let selection = Selection { start, end };
            match target {
                EditTarget::Committed => {
                    match reg.replace_committed(convo_id, participant_id, selection, &text) {
                        Ok(_) => {
                            proof {
                                let ci = convo_at(old(reg)@.convos, convo_id);
                                assert(reg@.convos[ci].id == convo_id);
                                lemma_convo_at_pin(reg@.convos, convo_id, ci);
                            }
                            broadcast_committed_buffer(reg, convo_id, participant_id)
                        }
                        Err(EngineError::NotFound) => Effect::Failed {
                            error: EngineError::NotFound,
                        },
                        Err(_) => Effect::Silent,
                    }
                }
                EditTarget::Draft => {
                    let nick = lookup_nick(reg, participant_id);
                    match reg.replace_draft(
                        convo_id,
                        participant_id,
                        nick,
                        stamp,
                        selection,
                        text,
                    ) {
                        Ok(_) => {
                            proof {
                                let ci = convo_at(old(reg)@.convos, convo_id);
                                let c0 = old(reg)@.convos[ci];
                                assert(crate::convo::convo_wf(c0));
                                lemma_apply_change_has_draft(
                                    c0.workspace,
                                    draft_replace_change(
                                        old(reg)@,
                                        participant_id,
                                        stamp,
                                        start as int,
                                        end as int,
                                        text@,
                                    ),
                                );
                                assert(reg@.convos[ci].id == convo_id);
                                lemma_convo_at_pin(reg@.convos, convo_id, ci);
                            }
                            broadcast_draft(reg, convo_id, participant_id)
                        }
                        Err(EngineError::NotFound) => Effect::Failed {
                            error: EngineError::NotFound,
                        },
                        Err(_) => Effect::Silent,
                    }
                }
            }
        }
        Command::Commit { convo_id, participant_id } => {
            let moved = match reg.get_convo(convo_id) {
                Some(c) => {
                    proof {
                        assert(crate::convo::convo_wf(
                            reg@.convos[convo_at(reg@.convos, convo_id)],
                        ));
                    }
                    match c.workspace().draft_of(participant_id as u128) {
                        Some(s) => s.clone(),
                        None => String::new(),
                    }
                }
                None => {
                    return Effect::Failed { error: EngineError::NotFound };
                }
            };
            let nick = lookup_nick(reg, participant_id);
            match reg.commit_draft(convo_id, participant_id, nick, stamp) {
                Ok(_) => {
                    proof {
                        let ci = convo_at(old(reg)@.convos, convo_id);
                        assert(reg@.convos[ci].id == convo_id);
                        lemma_convo_at_pin(reg@.convos, convo_id, ci);
                    }
                    let recipients = fetch_recipients(reg, convo_id, participant_id);
                    Effect::Broadcast {
                        recipients,
                        update: Update::Committed { participant_id, text: moved, stamp },
                    }
                }
                Err(_) => Effect::Silent,
            }
        }
        Command::RequestSnapshot { convo_id, participant_id } => {
            match reg.get_convo(convo_id) {
                Some(c) => {
                    if c.has_permission(participant_id) {
                        Effect::Reply { text: c.buffer().clone() }
                    } else {
                        Effect::Silent
                    }
                }
                None => Effect::Failed { error: EngineError::NotFound },
            }
        }
        Command::MoveCursor { convo_id, participant_id, position } => {
            let eligible = match reg.get_convo(convo_id) {
                Some(c) => c.has_permission(participant_id),
                None => {
                    return Effect::Failed { error: EngineError::NotFound };
                }
            };
            if eligible {
                let recipients = fetch_recipients(reg, convo_id, participant_id);
                Effect::Broadcast {
                    recipients,
                    update: Update::Cursor { participant_id, position },
                }
            } else {
                Effect::Silent
            }
        }
    }
}

/// The participant's current nickname as an owned value; anonymous for an
/// unknown participant.
fn lookup_nick(reg: &ConversationRegistry, participant_id: usize) -> (r: Nick)
    requires
        reg.wf(),
    ensures
        nick_chars(r) == nick_of(reg@.parts, participant_id),
{
    match reg.get_participant(participant_id) {
        Some(p) => p.nick.dup(),
        None => Nick::Anon,
    }
}

/// The recipient list for a broadcast of `convo_id` excluding `sender`.
fn fetch_recipients(reg: &ConversationRegistry, convo_id: usize, sender: usize) -> (r: Vec<usize>)
    requires
        reg.wf(),
        has_convo(reg@.convos, convo_id),
    ensures
        good_recipients(reg@, convo_id, sender, r@),
{
    match reg.route(convo_id, sender) {
        Ok(list) => list,
        Err(_) => {
            proof {
                assert(false);
            }
            Vec::new()
        }
    }
}

/// The broadcast after a successful committed-buffer replace: the new
/// buffer snapshot, to the eligible registered members except the sender.
fn broadcast_committed_buffer(
    reg: &ConversationRegistry,
    convo_id: usize,
    sender: usize,
) -> (r: Effect)
    requires
        reg.wf(),
        has_convo(reg@.convos, convo_id),
    ensures
        (r matches Effect::Broadcast { recipients, update } && good_recipients(
            reg@,
            convo_id,
            sender,
            recipients@,
        ) && (update matches Update::Buffer { text: snap } && snap@ == reg@.convos[convo_at(
            reg@.convos,
            convo_id,
        )].buffer)),
{
    let snap = match reg.get_convo(convo_id) {
        Some(c) => c.buffer().clone(),
        None => {
            proof {
                assert(false);
            }
            String::new()
        }
    };
    let recipients = fetch_recipients(reg, convo_id, sender);
    Effect::Broadcast { recipients, update: Update::Buffer { text: snap } }
}

/// The broadcast after a successful draft replace: the sender's new draft
/// text, to the eligible registered members except the sender.
fn broadcast_draft(reg: &ConversationRegistry, convo_id: usize, sender: usize) -> (r: Effect)
    requires
        reg.wf(),
        has_convo(reg@.convos, convo_id),
        crate::workspace::has_draft(
            reg@.convos[convo_at(reg@.convos, convo_id)].workspace.buffers,
            sender as u128,
        ),
    ensures
        (r matches Effect::Broadcast { recipients, update } && good_recipients(
            reg@,
            convo_id,
            sender,
            recipients@,
        ) && (update matches Update::Draft { participant_id: p2, text: dtext } && p2 == sender
            && dtext@ == draft_text(
            reg@.convos[convo_at(reg@.convos, convo_id)].workspace,
            sender as u128,
        ))),
{
    let dtext = match reg.get_convo(convo_id) {
        Some(c) => {
            match c.workspace().draft_of(sender as u128) {
                Some(s) => s.clone(),
                None => {
                    proof {
                        assert(false);
                    }
                    String::new()
                }
            }
        }
        None => {
            proof {
                assert(false);
            }
            String::new()
        }
    };
    let recipients = fetch_recipients(reg, convo_id, sender);
    Effect::Broadcast { recipients, update: Update::Draft { participant_id: sender, text: dtext } }
}

} // verus!
