//! Per-sender draft buffers and the message log they solidify into.
//!
//! A [`Workspace`] holds one draft [`Message`] per sender — the text that
//! sender is currently typing — and the log of messages already committed.
//! A [`Change`] names its sender and carries either a range replace against
//! that sender's draft or a commit ("solidify") that appends the draft to
//! the log and resets it to empty. The first change from an unknown sender
//! creates that sender's draft lazily.

use vstd::prelude::*;
use crate::nick::{Nick, nick_chars};
use crate::selection::Selection;
use crate::textbuf::{spliced, splice_text};

verus! {

/// One message: its sender, the sender's nickname at the time of the last
/// change, the text, and the commit timestamp supplied by the caller of the
/// last change.
#[derive(Debug)]
pub struct Message {
    pub sender_ip: u128,
    pub sender_nick: Nick,
    pub text: String,
    pub stamp: u64,
}

/// The mathematical value of a [`Message`].
#[verifier::ext_equal]
pub struct MessageModel {
    pub sender_ip: u128,
    pub sender_nick: Option<Seq<char>>,
    pub text: Seq<char>,
    pub stamp: u64,
}

impl View for Message {
    type V = MessageModel;

    open spec fn view(&self) -> MessageModel {
        MessageModel {
            sender_ip: self.sender_ip,
            sender_nick: nick_chars(self.sender_nick),
            text: self.text@,
            stamp: self.stamp,
        }
    }
}

/// An edit submitted by a sender: either a range replace of the sender's
/// draft or a commit of it.
#[derive(Debug)]
pub enum Action {
    Replace(Selection, String),
    Solidify,
}

/// The mathematical value of an [`Action`].
pub enum ActionModel {
    Replace(int, int, Seq<char>),
    Solidify,
}

impl View for Action {
    type V = ActionModel;

    open spec fn view(&self) -> ActionModel {
        match self {
            Action::Replace(sel, text) => ActionModel::Replace(
                sel.start as int,
                sel.end as int,
                text@,
            ),
            Action::Solidify => ActionModel::Solidify,
        }
    }
}

/// One inbound change: the issuing sender, that sender's current nickname,
/// the caller-assigned timestamp, and the action to apply.
#[derive(Debug)]
pub struct Change {
    pub sender_ip: u128,
    pub sender_nick: Nick,
    pub stamp: u64,
    pub action: Action,
}

/// The mathematical value of a [`Change`].
#[verifier::ext_equal]
pub struct ChangeModel {
    pub sender_ip: u128,
    pub sender_nick: Option<Seq<char>>,
    pub stamp: u64,
    pub action: ActionModel,
}

impl View for Change {
    type V = ChangeModel;

    open spec fn view(&self) -> ChangeModel {
        ChangeModel {
            sender_ip: self.sender_ip,
            sender_nick: nick_chars(self.sender_nick),
            stamp: self.stamp,
            action: self.action@,
        }
    }
}

/// The draft staging area of one conversation: the already-solidified
/// message log, and one in-progress draft per sender.
pub struct Workspace {
    /// The append-only log of solidified messages.
    pub messages: Vec<Message>,
    /// The drafts, at most one per sender.
    pub buffers: Vec<Message>,
}

/// The mathematical value of a [`Workspace`].
#[verifier::ext_equal]
pub struct WorkspaceModel {
    pub messages: Seq<MessageModel>,
    pub buffers: Seq<MessageModel>,
}

impl View for Workspace {
    type V = WorkspaceModel;

    open spec fn view(&self) -> WorkspaceModel {
        WorkspaceModel {
            messages: self.messages@.map_values(|m: Message| m@),
            buffers: self.buffers@.map_values(|m: Message| m@),
        }
    }
}

/// Whether some draft in `bufs` belongs to `ip`.
pub open spec fn has_draft(bufs: Seq<MessageModel>, ip: u128) -> bool {
    exists|i: int| 0 <= i < bufs.len() && bufs[i].sender_ip == ip
}

/// The index of `ip`'s draft in `bufs`; meaningful when [`has_draft`] holds
/// and drafts are unique per sender.
pub open spec fn draft_index(bufs: Seq<MessageModel>, ip: u128) -> int {
    choose|i: int| 0 <= i < bufs.len() && bufs[i].sender_ip == ip
}

/// At most one draft per sender.
pub open spec fn wf_drafts(bufs: Seq<MessageModel>) -> bool {
    forall|i: int, j: int|
        0 <= i < j < bufs.len() ==> bufs[i].sender_ip != bufs[j].sender_ip
}

/// The text of `ip`'s current draft, empty when none exists yet.
pub open spec fn draft_text(w: WorkspaceModel, ip: u128) -> Seq<char> {
    if has_draft(w.buffers, ip) {
        w.buffers[draft_index(w.buffers, ip)].text
    } else {
        Seq::<char>::empty()
    }
}

/// The empty draft that a change from a yet-unknown sender creates.
pub open spec fn blank_draft(c: ChangeModel) -> MessageModel {
    MessageModel {
        sender_ip: c.sender_ip,
        sender_nick: c.sender_nick,
        text: Seq::<char>::empty(),
        stamp: c.stamp,
    }
}

/// `m` with its nickname and timestamp refreshed from the change that is
/// being applied; every change refreshes both before acting.
pub open spec fn refreshed(m: MessageModel, c: ChangeModel) -> MessageModel {
    MessageModel { sender_nick: c.sender_nick, stamp: c.stamp, ..m }
}

/// The sender's draft after `c` acted on it: a replace splices the new text
/// in at the normalized selection; a solidify resets the draft to empty.
pub open spec fn step_draft(m: MessageModel, c: ChangeModel) -> MessageModel {
    match c.action {
        ActionModel::Replace(start, end, t) => MessageModel {
            text: spliced(m.text, start, end, t),
            ..refreshed(m, c)
        },
        ActionModel::Solidify => MessageModel {
            text: Seq::<char>::empty(),
            ..refreshed(m, c)
        },
    }
}

/// The message log after `c` acted on the draft `m`: a solidify appends the
/// draft (with refreshed nickname and timestamp), a replace leaves the log
/// alone.
pub open spec fn step_log(
    log: Seq<MessageModel>,
    m: MessageModel,
    c: ChangeModel,
) -> Seq<MessageModel> {
    match c.action {
        ActionModel::Replace(start, end, t) => log,
        ActionModel::Solidify => log.push(refreshed(m, c)),
    }
}

/// The whole workspace after processing `c`: the sender's draft is found or
/// freshly created, then stepped by the action.
pub open spec fn apply_change(w: WorkspaceModel, c: ChangeModel) -> WorkspaceModel {
    let bufs = if has_draft(w.buffers, c.sender_ip) {
        w.buffers
    } else {
        w.buffers.push(blank_draft(c))
    };
    let i = draft_index(bufs, c.sender_ip);
    WorkspaceModel {
        messages: step_log(w.messages, bufs[i], c),
        buffers: bufs.update(i, step_draft(bufs[i], c)),
    }
}

impl Workspace {
    /// At most one draft per sender; every operation preserves this.
    pub open spec fn wf(&self) -> bool {
        wf_drafts(self@.buffers)
    }

    /// An empty workspace: no log entries, no drafts.
    pub fn new() -> (w: Workspace)
        ensures
            w@.messages.len() == 0,
            w@.buffers.len() == 0,
            w.wf(),
    {
        Workspace { messages: Vec::new(), buffers: Vec::new() }
    }

    /// The text of `ip`'s current draft, if that sender has one.
    pub fn draft_of(&self, ip: u128) -> (r: Option<&String>)
        requires
            self.wf(),
        ensures
            match r {
                Some(s) => has_draft(self@.buffers, ip) && s@ == draft_text(self@, ip),
                None => !has_draft(self@.buffers, ip),
            },
    {
        let n = self.buffers.len();
        let mut i: usize = 0;
        while i < n
            invariant
                n == self.buffers@.len(),
                i <= n,
                self.wf(),
                forall|k: int| 0 <= k < i ==> self@.buffers[k].sender_ip != ip,
            decreases n - i,
        {
            if self.buffers[i].sender_ip == ip {
                proof {
                    assert(has_draft(self@.buffers, ip)) by {
                        assert(self@.buffers[i as int].sender_ip == ip);
                    }
                    let di = draft_index(self@.buffers, ip);
                    assert(0 <= di < self@.buffers.len() && self@.buffers[di].sender_ip == ip);
                    assert(di == i as int) by {
                        if di != i as int {
                            assert(self@.buffers[di].sender_ip != self@.buffers[i as int].sender_ip);
                        }
                    }
                }
                return Some(&self.buffers[i].text);
            }
            i += 1;
        }
        None
    }

    /// Processes one change: finds the sender's draft, creating an empty one
    /// if this sender has none yet, and applies the change's action to it.
    pub fn change(&mut self, change: Change)
        requires
            old(self).wf(),
        ensures
            final(self).wf(),
            final(self)@ == apply_change(old(self)@, change@),
    {
        let ghost pre = self@;
        let ghost c = change@;
        let mut m_index: Option<usize> = None;
        let n = self.buffers.len();
        let mut i: usize = 0;
        while i < n
            invariant
                n == self.buffers@.len(),
                i <= n,
                *self == *old(self),
                match m_index {
                    Some(j) => j < n && self@.buffers[j as int].sender_ip == change.sender_ip,
                    None => forall|k: int|
                        0 <= k < i ==> self@.buffers[k].sender_ip != change.sender_ip,
                },
            decreases n - i,
        {
            if m_index.is_none() && self.buffers[i].sender_ip == change.sender_ip {
                m_index = Some(i);
            }
            i += 1;
        }

        if let Some(found) = m_index {
            proof {
                assert(has_draft(pre.buffers, c.sender_ip));
                let di = draft_index(pre.buffers, c.sender_ip);
                assert(0 <= di < pre.buffers.len() && pre.buffers[di].sender_ip == c.sender_ip);
                assert(di == found as int) by {
                    if di != found as int {
                        assert(pre.buffers[di].sender_ip != pre.buffers[found as int].sender_ip);
                    }
                }
            }
            self.process_action(found, change);
            proof {
                assert(final(self)@ =~= apply_change(pre, c));
                lemma_step_keeps_wf(pre.buffers, found as int, c);
            }
        } else {
            proof {
                assert(!has_draft(pre.buffers, c.sender_ip));
            }
            let blank = Message {
                sender_ip: change.sender_ip,
                sender_nick: Nick::Anon,
                text: String::new(),
                stamp: change.stamp,
            };
            self.buffers.push(blank);
            let ghost mid = self@;
            proof {
                assert(mid.buffers =~= pre.buffers.push(blank@));
                assert(mid.buffers[n as int].sender_ip == c.sender_ip);
                let di = draft_index(mid.buffers, c.sender_ip);
                assert(0 <= di < mid.buffers.len() && mid.buffers[di].sender_ip == c.sender_ip);
                assert(di == n as int) by {
                    if di < n as int {
                        assert(pre.buffers[di].sender_ip != c.sender_ip);
                    }
                }
            }
            self.process_action(n, change);
            proof {
                let bufs = pre.buffers.push(blank_draft(c));
                assert(bufs =~= mid.buffers.update(n as int, blank_draft(c)));
                let di = draft_index(bufs, c.sender_ip);
                assert(0 <= di < bufs.len() && bufs[di].sender_ip == c.sender_ip) by {
                    assert(bufs[n as int].sender_ip == c.sender_ip);
                }
                assert(di == n as int) by {
                    if di < n as int {
                        assert(pre.buffers[di].sender_ip != c.sender_ip);
                    }
                }
                assert(step_draft(blank@, c) =~= step_draft(blank_draft(c), c));
                assert(refreshed(blank@, c) =~= refreshed(blank_draft(c), c));
                assert(final(self)@ =~= apply_change(pre, c));
                lemma_step_keeps_wf(mid.buffers, n as int, c);
            }
        }
    }

    /// Refreshes the draft's nickname and timestamp from the change, then
    /// applies the change's action to the draft at `m_index`.
    pub fn process_action(&mut self, m_index: usize, change: Change)
        requires
            m_index < old(self)@.buffers.len(),
        ensures
            final(self)@.buffers == old(self)@.buffers.update(
                m_index as int,
                step_draft(old(self)@.buffers[m_index as int], change@),
            ),
            final(self)@.messages == step_log(
                old(self)@.messages,
                old(self)@.buffers[m_index as int],
                change@,
            ),
    {
        let ghost pre = self@;
        let ghost c = change@;
        let Change { sender_ip: _, sender_nick, stamp, action } = change;
        let message = &mut self.buffers[m_index];
        message.sender_nick = sender_nick;
        message.stamp = stamp;
        proof {
            assert(self@.buffers =~= pre.buffers.update(
                m_index as int,
                refreshed(pre.buffers[m_index as int], c),
            ));
            assert(self@.messages =~= pre.messages);
        }
        match action {
            Action::Replace(sel, text) => {
                self.replace(m_index, sel, text);
                proof {
                    assert(final(self)@.buffers =~= pre.buffers.update(
                        m_index as int,
                        step_draft(pre.buffers[m_index as int], c),
                    ));
                }
            }
            Action::Solidify => {
                self.solidify(m_index);
                proof {
                    assert(final(self)@.buffers =~= pre.buffers.update(
                        m_index as int,
                        step_draft(pre.buffers[m_index as int], c),
                    ));
                    assert(final(self)@.messages =~= step_log(
                        pre.messages,
                        pre.buffers[m_index as int],
                        c,
                    ));
                }
            }
        }
    }

    /// Appends the draft at `m_index` to the message log, then resets that
    /// draft's text to empty. Nothing but that draft's text changes.
    pub fn solidify(&mut self, m_index: usize)
        requires
            m_index < old(self)@.buffers.len(),
        ensures
            final(self)@.messages == old(self)@.messages.push(
                old(self)@.buffers[m_index as int],
            ),
            final(self)@.buffers == old(self)@.buffers.update(
                m_index as int,
                MessageModel {
                    text: Seq::<char>::empty(),
                    ..old(self)@.buffers[m_index as int]
                },
            ),
    {
        let ghost pre = self@;
        let entry = Message {
            sender_ip: self.buffers[m_index].sender_ip,
            sender_nick: self.buffers[m_index].sender_nick.dup(),
            text: self.buffers[m_index].text.clone(),
            stamp: self.buffers[m_index].stamp,
        };
        proof {
            assert(entry@ =~= pre.buffers[m_index as int]);
        }
        self.messages.push(entry);
        let message = &mut self.buffers[m_index];
        message.text = String::new();
        proof {
            assert(final(self)@.messages =~= pre.messages.push(pre.buffers[m_index as int]));
            assert(final(self)@.buffers =~= pre.buffers.update(
                m_index as int,
                MessageModel { text: Seq::<char>::empty(), ..pre.buffers[m_index as int] },
            ));
        }
    }

    /// Splices `text` into the draft at `m_index` at the normalized
    /// selection. Nothing but that draft's text changes.
    pub fn replace(&mut self, m_index: usize, selection: Selection, text: String)
        requires
            m_index < old(self)@.buffers.len(),
        ensures
            final(self)@.buffers == old(self)@.buffers.update(
                m_index as int,
                MessageModel {
                    text: spliced(
                        old(self)@.buffers[m_index as int].text,
                        selection.start as int,
                        selection.end as int,
                        text@,
                    ),
                    ..old(self)@.buffers[m_index as int]
                },
            ),
            final(self)@.messages == old(self)@.messages,
    {
        let ghost pre = self@;
        let new_text = splice_text(&self.buffers[m_index].text, selection, &text);
        let message = &mut self.buffers[m_index];
        message.text = new_text;
        proof {
            assert(final(self)@.messages =~= pre.messages);
            assert(final(self)@.buffers =~= pre.buffers.update(
                m_index as int,
                MessageModel {
                    text: spliced(
                        pre.buffers[m_index as int].text,
                        selection.start as int,
                        selection.end as int,
                        text@,
                    ),
                    ..pre.buffers[m_index as int]
                },
            ));
        }
    }
}

impl Nick {
    /// A copy of the nickname carrying the same characters.
    pub fn dup(&self) -> (r: Nick)
        ensures
            nick_chars(r) == nick_chars(*self),
    {
        match self {
            Nick::Named(s) => Nick::Named(s.clone()),
            Nick::Anon => Nick::Anon,
        }
    }
}

/// Processing a change keeps drafts unique per sender: an existing draft is
/// only stepped in place, and a fresh draft belongs to a sender that had
/// none.
pub proof fn lemma_apply_change_wf(w: WorkspaceModel, c: ChangeModel)
    requires
        wf_drafts(w.buffers),
    ensures
        wf_drafts(apply_change(w, c).buffers),
{
    if has_draft(w.buffers, c.sender_ip) {
        let i = draft_index(w.buffers, c.sender_ip);
        lemma_step_keeps_wf(w.buffers, i, c);
    } else {
        let bufs = w.buffers.push(blank_draft(c));
        assert(wf_drafts(bufs)) by {
            assert forall|p: int, q: int|
                0 <= p < q < bufs.len() implies bufs[p].sender_ip != bufs[q].sender_ip by {
                if q == bufs.len() - 1 {
                    assert(bufs[p] == w.buffers[p]);
                }
            }
        }
        let i = draft_index(bufs, c.sender_ip);
        assert(bufs[bufs.len() - 1].sender_ip == c.sender_ip);
        lemma_step_keeps_wf(bufs, i, c);
    }
}

/// After a change from some sender, that sender always has a draft: an
/// existing one was stepped in place, or a fresh one was created.
pub proof fn lemma_apply_change_has_draft(w: WorkspaceModel, c: ChangeModel)
    requires
        wf_drafts(w.buffers),
    ensures
        has_draft(apply_change(w, c).buffers, c.sender_ip),
{
    let bufs = if has_draft(w.buffers, c.sender_ip) {
        w.buffers
    } else {
        w.buffers.push(blank_draft(c))
    };
    let i = draft_index(bufs, c.sender_ip);
    if has_draft(w.buffers, c.sender_ip) {
        assert(0 <= i < bufs.len() && bufs[i].sender_ip == c.sender_ip);
    } else {
        assert(bufs[bufs.len() - 1].sender_ip == c.sender_ip);
        assert(0 <= i < bufs.len() && bufs[i].sender_ip == c.sender_ip);
    }
    assert(apply_change(w, c).buffers[i].sender_ip == c.sender_ip);
}

/// A commit moves all current draft content of its sender, and only that
/// content, into the message log — the new last entry carries exactly the
/// draft's text, every older entry is untouched — and then resets the
/// sender's draft to empty.
pub proof fn lemma_commit_moves_draft(w: WorkspaceModel, c: ChangeModel)
    requires
        wf_drafts(w.buffers),
        c.action is Solidify,
    ensures
        apply_change(w, c).messages.len() == w.messages.len() + 1,
        apply_change(w, c).messages.last().text == draft_text(w, c.sender_ip),
        apply_change(w, c).messages.last().sender_ip == c.sender_ip,
        apply_change(w, c).messages.last().sender_nick == c.sender_nick,
        apply_change(w, c).messages.last().stamp == c.stamp,
        forall|i: int|
            0 <= i < w.messages.len() ==> apply_change(w, c).messages[i] == w.messages[i],
        has_draft(apply_change(w, c).buffers, c.sender_ip),
        draft_text(apply_change(w, c), c.sender_ip) == Seq::<char>::empty(),
{
    let stepped = apply_change(w, c);
    let bufs = if has_draft(w.buffers, c.sender_ip) {
        w.buffers
    } else {
        w.buffers.push(blank_draft(c))
    };
    let i = draft_index(bufs, c.sender_ip);
    if has_draft(w.buffers, c.sender_ip) {
        assert(0 <= i < bufs.len() && bufs[i].sender_ip == c.sender_ip);
    } else {
        assert(bufs[bufs.len() - 1].sender_ip == c.sender_ip);
        assert(0 <= i < bufs.len() && bufs[i].sender_ip == c.sender_ip);
        assert(i == bufs.len() - 1) by {
            if i < bufs.len() - 1 {
                assert(w.buffers[i].sender_ip == c.sender_ip);
            }
        }
    }
    assert(stepped.messages.last().text == draft_text(w, c.sender_ip));
    lemma_apply_change_wf(w, c);
    assert(stepped.buffers[i].sender_ip == c.sender_ip);
    assert(has_draft(stepped.buffers, c.sender_ip));
    let j = draft_index(stepped.buffers, c.sender_ip);
    assert(0 <= j < stepped.buffers.len() && stepped.buffers[j].sender_ip == c.sender_ip);
    assert(j == i) by {
        if j != i {
            assert(stepped.buffers[j].sender_ip != stepped.buffers[i].sender_ip);
        }
    }
    assert(draft_text(stepped, c.sender_ip) == Seq::<char>::empty());
}

/// After a commit, the sender's next replace starts from an empty draft:
/// its result is the new text spliced into empty.
pub proof fn lemma_replace_after_commit(w: WorkspaceModel, c1: ChangeModel, c2: ChangeModel)
    requires
        wf_drafts(w.buffers),
        c1.action is Solidify,
        c2.sender_ip == c1.sender_ip,
        c2.action matches ActionModel::Replace(start, end, t),
    ensures
        draft_text(apply_change(apply_change(w, c1), c2), c2.sender_ip) == (match c2.action {
            ActionModel::Replace(start, end, t) => spliced(Seq::<char>::empty(), start, end, t),
            ActionModel::Solidify => Seq::<char>::empty(),
        }),
{
    let w1 = apply_change(w, c1);
    lemma_commit_moves_draft(w, c1);
    lemma_apply_change_wf(w, c1);
    let w2 = apply_change(w1, c2);
    lemma_apply_change_wf(w1, c2);
    let i1 = draft_index(w1.buffers, c2.sender_ip);
    assert(has_draft(w1.buffers, c2.sender_ip));
    assert(w1.buffers[i1].sender_ip == c2.sender_ip);
    assert(w1.buffers[i1].text == Seq::<char>::empty()) by {
        assert(draft_text(w1, c1.sender_ip) == Seq::<char>::empty());
    }
    let i2 = draft_index(w2.buffers, c2.sender_ip);
    assert(w2.buffers[i1] == step_draft(w1.buffers[i1], c2));
    assert(0 <= i2 < w2.buffers.len() && w2.buffers[i2].sender_ip == c2.sender_ip);
    assert(i2 == i1) by {
        if i2 != i1 {
            assert(w2.buffers[i2].sender_ip != w2.buffers[i1].sender_ip);
        }
    }
}

/// Stepping the draft at a valid index never changes any sender, so draft
/// uniqueness is preserved.
pub proof fn lemma_step_keeps_wf(bufs: Seq<MessageModel>, i: int, c: ChangeModel)
    requires
        wf_drafts(bufs),
        0 <= i < bufs.len(),
    ensures
        wf_drafts(bufs.update(i, step_draft(bufs[i], c))),
{
    let stepped = bufs.update(i, step_draft(bufs[i], c));
    assert forall|p: int, q: int|
        0 <= p < q < stepped.len() implies stepped[p].sender_ip != stepped[q].sender_ip by {
        assert(stepped[p].sender_ip == bufs[p].sender_ip);
        assert(stepped[q].sender_ip == bufs[q].sender_ip);
    }
}

} // verus!
