//! The registry that owns every conversation and every known participant,
//! resolves identifiers to records, and computes where an authorized
//! change must be routed.
//!
//! Identifiers are assigned by the caller and must be unique per entity
//! type: inserting a duplicate is a `Conflict`, never silently ignored.
//! Deregistering a participant leaves its conversation memberships in
//! place — presence, not connectivity, defines membership.

use vstd::prelude::*;
use crate::convo::{Conversation, ConvoModel, convo_wf, fresh_convo, spec_eligible, spec_level};
use crate::errors::EngineError;
use crate::nick::{Nick, nick_chars};
use crate::perm::{Permissions, spec_may_mutate};
use crate::selection::Selection;
use crate::textbuf::spliced;
use crate::workspace::{ActionModel, ChangeModel, apply_change};

verus! {

/// One known participant: the caller-assigned identifier and the optional
/// display nickname.
pub struct Participant {
    pub id: usize,
    pub nick: Nick,
}

/// The mathematical value of a [`Participant`].
#[verifier::ext_equal]
pub struct PartModel {
    pub id: usize,
    pub nick: Option<Seq<char>>,
}

impl View for Participant {
    type V = PartModel;

    open spec fn view(&self) -> PartModel {
        PartModel { id: self.id, nick: nick_chars(self.nick) }
    }
}

/// The mathematical value of a [`ConversationRegistry`].
#[verifier::ext_equal]
pub struct RegistryModel {
    pub convos: Seq<ConvoModel>,
    pub parts: Seq<PartModel>,
}

/// Whether some conversation in `convos` carries `id`.
pub open spec fn has_convo(convos: Seq<ConvoModel>, id: usize) -> bool {
    exists|i: int| 0 <= i < convos.len() && convos[i].id == id
}

/// The index of the conversation carrying `id`; meaningful when
/// [`has_convo`] holds and ids are unique.
pub open spec fn convo_at(convos: Seq<ConvoModel>, id: usize) -> int {
    choose|i: int| 0 <= i < convos.len() && convos[i].id == id
}

/// Whether some participant in `parts` carries `id`.
pub open spec fn has_part(parts: Seq<PartModel>, id: usize) -> bool {
    exists|i: int| 0 <= i < parts.len() && parts[i].id == id
}

/// The index of the participant carrying `id`; meaningful when
/// [`has_part`] holds and ids are unique.
pub open spec fn part_at(parts: Seq<PartModel>, id: usize) -> int {
    choose|i: int| 0 <= i < parts.len() && parts[i].id == id
}

/// Under unique conversation ids, the index of a conversation that
/// carries `id` is the one [`convo_at`] picks.
pub proof fn lemma_convo_at_pin(convos: Seq<ConvoModel>, id: usize, i: int)
    requires
        forall|p: int, q: int| 0 <= p < q < convos.len() ==> convos[p].id != convos[q].id,
        0 <= i < convos.len(),
        convos[i].id == id,
    ensures
        has_convo(convos, id),
        convo_at(convos, id) == i,
{
    assert(has_convo(convos, id));
    let c0 = convo_at(convos, id);
    assert(0 <= c0 < convos.len() && convos[c0].id == id);
    if c0 < i {
        assert(convos[c0].id != convos[i].id);
    } else if i < c0 {
        assert(convos[i].id != convos[c0].id);
    }
}

/// The nickname registered for `id`: the participant's recorded nickname,
/// or none for an unknown participant.
pub open spec fn nick_of(parts: Seq<PartModel>, id: usize) -> Option<Seq<char>> {
    if has_part(parts, id) {
        parts[part_at(parts, id)].nick
    } else {
        None
    }
}

/// Owns all conversation and participant records, keyed by identifier.
pub struct ConversationRegistry {
    conversations: Vec<Conversation>,
    participants: Vec<Participant>,
}

impl View for ConversationRegistry {
    type V = RegistryModel;

    closed spec fn view(&self) -> RegistryModel {
        RegistryModel {
            convos: self.conversations@.map_values(|c: Conversation| c@),
            parts: self.participants@.map_values(|p: Participant| p@),
        }
    }
}

impl ConversationRegistry {
    /// Conversation and participant identifiers are unique per entity
    /// type, and every conversation satisfies its own invariant.
    pub open spec fn wf(&self) -> bool {
        &&& (forall|i: int, j: int|
            0 <= i < j < self@.convos.len() ==> self@.convos[i].id != self@.convos[j].id)
        &&& (forall|i: int, j: int|
            0 <= i < j < self@.parts.len() ==> self@.parts[i].id != self@.parts[j].id)
        &&& (forall|i: int| 0 <= i < self@.convos.len() ==> convo_wf(#[trigger] self@.convos[i]))
    }

    /// An empty registry: no conversations, no participants.
    pub fn new() -> (r: ConversationRegistry)
        ensures
            r.wf(),
            r@.convos == Seq::<ConvoModel>::empty(),
            r@.parts == Seq::<PartModel>::empty(),
    {
        let r = ConversationRegistry { conversations: Vec::new(), participants: Vec::new() };
        proof {
            assert(r@.convos =~= Seq::<ConvoModel>::empty());
            assert(r@.parts =~= Seq::<PartModel>::empty());
        }
        r
    }

    /// The position of the conversation carrying `id`, if any.
    fn find_convo(&self, id: usize) -> (r: Option<usize>)
        ensures
            match r {
                Some(i) => i < self@.convos.len() && self@.convos[i as int].id == id,
                None => !has_convo(self@.convos, id),
            },
    {
        let n = self.conversations.len();
        let mut i: usize = 0;
        while i < n
            invariant
                n == self.conversations@.len(),
                n == self@.convos.len(),
                i <= n,
                forall|k: int| 0 <= k < i ==> self@.convos[k].id != id,
            decreases n - i,
        {
            if *self.conversations[i].id() == id {
                return Some(i);
            }
            i += 1;
        }
        None
    }

    /// The position of the participant carrying `id`, if any.
    fn find_part(&self, id: usize) -> (r: Option<usize>)
        ensures
            match r {
                Some(i) => i < self@.parts.len() && self@.parts[i as int].id == id,
                None => !has_part(self@.parts, id),
            },
    {
        let n = self.participants.len();
        let mut i: usize = 0;
        while i < n
            invariant
                n == self.participants@.len(),
                n == self@.parts.len(),
                i <= n,
                forall|k: int| 0 <= k < i ==> self@.parts[k].id != id,
            decreases n - i,
        {
            if self.participants[i].id == id {
                return Some(i);
            }
            i += 1;
        }
        None
    }

    /// Registers a new participant with no nickname yet. A duplicate
    /// identifier is a `Conflict` and changes nothing.
    pub fn register_participant(&mut self, id: usize) -> (r: Result<(), EngineError>)
        requires
            old(self).wf(),
        ensures
            final(self).wf(),
            r is Ok <==> !has_part(old(self)@.parts, id),
            r is Ok ==> final(self)@ == (RegistryModel {
                parts: old(self)@.parts.push(PartModel { id: id, nick: None }),
                ..old(self)@
            }),
            r is Err ==> r == Err::<(), EngineError>(EngineError::Conflict) && final(self)@
                == old(self)@,
    {
        match self.find_part(id) {
            Some(_) => {
                assert(final(self)@ =~= old(self)@);
                Err(EngineError::Conflict)
            }
            None => {
                self.participants.push(Participant { id, nick: Nick::Anon });
                proof {
                    assert(final(self)@.parts =~= old(self)@.parts.push(
                        PartModel { id: id, nick: None },
                    ));
                    assert(final(self)@ =~= (RegistryModel {
                        parts: old(self)@.parts.push(PartModel { id: id, nick: None }),
                        ..old(self)@
                    }));
                    assert forall|i: int, j: int|
                        0 <= i < j < final(self)@.parts.len() implies final(self)@.parts[i].id
                        != final(self)@.parts[j].id by {
                        if j < old(self)@.parts.len() {
                        } else {
                            assert(old(self)@.parts[i].id == final(self)@.parts[i].id);
                        }
                    }
                }
                Ok(())
            }
        }
    }

    /// Records `id`'s current display nickname; `NotFound` for an unknown
    /// participant.
    pub fn set_nick(&mut self, id: usize, nick: Nick) -> (r: Result<(), EngineError>)
        requires
            old(self).wf(),
        ensures
            final(self).wf(),
            r is Ok <==> has_part(old(self)@.parts, id),
            r is Ok ==> final(self)@ == (RegistryModel {
                parts: old(self)@.parts.update(
                    part_at(old(self)@.parts, id),
                    PartModel { id: id, nick: nick_chars(nick) },
                ),
                ..old(self)@
            }),
            r is Err ==> r == Err::<(), EngineError>(EngineError::NotFound) && final(self)@
                == old(self)@,
    {
        match self.find_part(id) {
            Some(i) => {
                proof {
                    let pi = part_at(old(self)@.parts, id);
                    assert(has_part(old(self)@.parts, id));
                    assert(0 <= pi < old(self)@.parts.len() && old(self)@.parts[pi].id == id);
                    assert(pi == i as int) by {
                        if pi != i as int {
                            assert(old(self)@.parts[pi].id != old(self)@.parts[i as int].id);
                        }
                    }
                }
                let p = &mut self.participants[i];
                p.nick = nick;
                proof {
                    assert(final(self)@.parts =~= old(self)@.parts.update(
                        part_at(old(self)@.parts, id),
                        PartModel { id: id, nick: nick_chars(nick) },
                    ));
                    assert(final(self)@ =~= (RegistryModel {
                        parts: final(self)@.parts,
                        ..old(self)@
                    }));
                }
                Ok(())
            }
            None => {
                assert(final(self)@ =~= old(self)@);
                Err(EngineError::NotFound)
            }
        }
    }

    /// Removes the participant record; its conversation memberships stay,
    /// so the identifier can come back and regain access. Removing an
    /// unknown id changes nothing.
    pub fn deregister_participant(&mut self, id: usize)
        requires
            old(self).wf(),
        ensures
            final(self).wf(),
            has_part(old(self)@.parts, id) ==> final(self)@ == (RegistryModel {
                parts: old(self)@.parts.remove(part_at(old(self)@.parts, id)),
                ..old(self)@
            }),
            !has_part(old(self)@.parts, id) ==> final(self)@ == old(self)@,
            !has_part(final(self)@.parts, id),
    {
        match self.find_part(id) {
            Some(i) => {
                proof {
                    let pi = part_at(old(self)@.parts, id);
                    assert(has_part(old(self)@.parts, id));
                    assert(0 <= pi < old(self)@.parts.len() && old(self)@.parts[pi].id == id);
                    assert(pi == i as int) by {
                        if pi != i as int {
                            assert(old(self)@.parts[pi].id != old(self)@.parts[i as int].id);
                        }
                    }
                }
                self.participants.remove(i);
                proof {
                    let pre = old(self)@.parts;
                    let now = final(self)@.parts;
                    assert(now =~= pre.remove(i as int));
                    assert(final(self)@ =~= (RegistryModel { parts: now, ..old(self)@ }));
                    assert(forall|k: int| 0 <= k < i ==> now[k] == pre[k]);
                    assert(forall|k: int| i <= k < now.len() ==> now[k] == pre[k + 1]);
                    assert forall|p: int, q: int|
                        0 <= p < q < now.len() implies now[p].id != now[q].id by {
                        let p0: int = if p < i { p } else { p + 1 };
                        let q0: int = if q < i { q } else { q + 1 };
                        assert(now[p] == pre[p0] && now[q] == pre[q0] && p0 < q0);
                    }
                    assert forall|k: int| 0 <= k < now.len() implies now[k].id != id by {
                        let k0: int = if k < i { k } else { k + 1 };
                        assert(now[k] == pre[k0] && k0 != i);
                        assert(pre[k0].id != pre[i as int].id);
                    }
                }
            }
            None => {
                assert(final(self)@ =~= old(self)@);
            }
        }
    }

    /// Creates a conversation owned by `owner`. A duplicate conversation
    /// id, or an owner that is not a registered participant, is a
    /// `Conflict` and changes nothing.
    pub fn create_conversation(&mut self, id: usize, owner: usize, name: String) -> (r: Result<
        (),
        EngineError,
    >)
        requires
            old(self).wf(),
        ensures
            final(self).wf(),
            r is Ok <==> (!has_convo(old(self)@.convos, id) && has_part(old(self)@.parts, owner)),
            r is Ok ==> final(self)@ == (RegistryModel {
                convos: old(self)@.convos.push(fresh_convo(id, name@, owner)),
                ..old(self)@
            }),
            r is Err ==> r == Err::<(), EngineError>(EngineError::Conflict) && final(self)@
                == old(self)@,
    {
        if self.find_convo(id).is_some() {
            assert(final(self)@ =~= old(self)@);
            return Err(EngineError::Conflict);
        }
        if self.find_part(owner).is_none() {
            assert(final(self)@ =~= old(self)@);
            return Err(EngineError::Conflict);
        }
        let ghost nm = name@;
        let c = Conversation::new(id, name, owner);
        self.conversations.push(c);
        proof {
            let pre = old(self)@.convos;
            let now = final(self)@.convos;
            assert(now =~= pre.push(c@));
            assert(final(self)@ =~= (RegistryModel {
                convos: pre.push(fresh_convo(id, nm, owner)),
                ..old(self)@
            }));
            assert forall|p: int, q: int|
                0 <= p < q < now.len() implies now[p].id != now[q].id by {
                if q < pre.len() {
                } else {
                    assert(now[p] == pre[p]);
                    assert(now[q].id == id);
                }
            }
        }
        Ok(())
    }

    /// Adds `participant` to the user set of `convo`. Unknown ids are
    /// `NotFound`; a banned participant is `Denied`; one already holding a
    /// role is `AlreadyMember` (informational, not fatal). Only a
    /// successful join changes anything.
    pub fn join(&mut self, convo: usize, participant: usize) -> (r: Result<(), EngineError>)
        requires
            old(self).wf(),
        ensures
            final(self).wf(),
            !has_convo(old(self)@.convos, convo) || !has_part(old(self)@.parts, participant)
                ==> r == Err::<(), EngineError>(EngineError::NotFound) && final(self)@ == old(
                self,
            )@,
            has_convo(old(self)@.convos, convo) && has_part(old(self)@.parts, participant) ==> {
                let ci = convo_at(old(self)@.convos, convo);
                let level = spec_level(old(self)@.convos[ci], participant);
                &&& (level == Permissions::Banned ==> r == Err::<(), EngineError>(
                    EngineError::Denied,
                ) && final(self)@ == old(self)@)
                &&& (spec_may_mutate(level) ==> r == Err::<(), EngineError>(
                    EngineError::AlreadyMember,
                ) && final(self)@ == old(self)@)
                &&& (level == Permissions::Apart ==> r is Ok && final(self)@ == (RegistryModel {
                    convos: old(self)@.convos.update(
                        ci,
                        ConvoModel {
                            users: old(self)@.convos[ci].users.push(participant),
                            ..old(self)@.convos[ci]
                        },
                    ),
                    ..old(self)@
                }))
            },
    {
        let ci = match self.find_convo(convo) {
            Some(i) => i,
            None => {
                assert(final(self)@ =~= old(self)@);
                return Err(EngineError::NotFound);
            }
        };
        if self.find_part(participant).is_none() {
            assert(final(self)@ =~= old(self)@);
            return Err(EngineError::NotFound);
        }
        proof {
            let c0 = convo_at(old(self)@.convos, convo);
            assert(has_convo(old(self)@.convos, convo));
            assert(0 <= c0 < old(self)@.convos.len() && old(self)@.convos[c0].id == convo);
            assert(c0 == ci as int) by {
                if c0 != ci as int {
                    assert(old(self)@.convos[c0].id != old(self)@.convos[ci as int].id);
                }
            }
        }
        let level = match self.conversations[ci].get_user_permissions(participant) {
            Some(p) => p,
            None => {
                assert(false);
                return Err(EngineError::NotFound);
            }
        };
        match level {
            Permissions::Banned => {
                assert(final(self)@ =~= old(self)@);
                Err(EngineError::Denied)
            }
            Permissions::Apart => {
                let ghost pre_c = old(self)@.convos[ci as int];
                let c = &mut self.conversations[ci];
                c.add_user(participant);
                proof {
                    assert(!pre_c.banned.contains(participant));
                    assert(!pre_c.users.contains(participant));
                    let newc = final(self)@.convos[ci as int];
                    assert(newc.users == pre_c.users.push(participant));
                    assert(final(self)@ =~= (RegistryModel {
                        convos: old(self)@.convos.update(
                            ci as int,
                            ConvoModel { users: pre_c.users.push(participant), ..pre_c },
                        ),
                        ..old(self)@
                    }));
                    assert forall|p: int, q: int|
                        0 <= p < q < final(self)@.convos.len() implies final(self)@.convos[p].id
                        != final(self)@.convos[q].id by {
                        assert(final(self)@.convos[p].id == old(self)@.convos[p].id);
                        assert(final(self)@.convos[q].id == old(self)@.convos[q].id);
                    }
                }
                Ok(())
            }
            _ => {
                assert(final(self)@ =~= old(self)@);
                Err(EngineError::AlreadyMember)
            }
        }
    }

    /// The recipient set for a broadcast of `convo` that excludes the
    /// originating `excluding`: the conversation's eligible members that
    /// are currently registered participants. `NotFound` for an unknown
    /// conversation.
    pub fn route(&self, convo: usize, excluding: usize) -> (r: Result<Vec<usize>, EngineError>)
        requires
            self.wf(),
        ensures
            r is Ok <==> has_convo(self@.convos, convo),
            r matches Ok(list) ==> {
                &&& (forall|u: usize|
                    list@.contains(u) <==> (spec_eligible(
                        self@.convos[convo_at(self@.convos, convo)],
                        u,
                        excluding,
                    ) && has_part(self@.parts, u)))
                &&& list@.no_duplicates()
            },
            r is Err ==> r == Err::<Vec<usize>, EngineError>(EngineError::NotFound),
    {
        let ci = match self.find_convo(convo) {
            Some(i) => i,
            None => {
                return Err(EngineError::NotFound);
            }
        };
        proof {
            let c0 = convo_at(self@.convos, convo);
            assert(has_convo(self@.convos, convo));
            assert(0 <= c0 < self@.convos.len() && self@.convos[c0].id == convo);
            assert(c0 == ci as int) by {
                if c0 != ci as int {
                    assert(self@.convos[c0].id != self@.convos[ci as int].id);
                }
            }
        }
        let eligible = self.conversations[ci].recipients(excluding);
        let mut out: Vec<usize> = Vec::new();
        let n = eligible.len();
        let mut i: usize = 0;
        while i < n
            invariant
                n == eligible@.len(),
                i <= n,
                self.wf(),
                ci < self@.convos.len(),
                forall|u: usize|
                    eligible@.contains(u) <==> spec_eligible(
                        self@.convos[ci as int],
                        u,
                        excluding,
                    ),
                eligible@.no_duplicates(),
                forall|u: usize|
                    #[trigger] out@.contains(u) <==> (exists|k: int|
                        0 <= k < i && eligible@[k] == u && has_part(self@.parts, u)),
                out@.no_duplicates(),
            decreases n - i,
        {
            let u = eligible[i];
            if self.find_part(u).is_some() {
                let ghost pre_out = out@;
                out.push(u);
                proof {
                    assert(out@ =~= pre_out.push(u));
                    assert forall|v: usize|
                        out@.contains(v) <==> (exists|k: int|
                            0 <= k < i + 1 && eligible@[k] == v && has_part(self@.parts, v)) by {
                        if out@.contains(v) {
                            let k = choose|k: int| 0 <= k < out@.len() && out@[k] == v;
                            if k < pre_out.len() {
                                assert(pre_out[k] == v);
                                assert(pre_out.contains(v));
                            } else {
                                assert(v == u);
                                assert(eligible@[i as int] == v && has_part(self@.parts, v));
                            }
                        }
                        if exists|k: int|
                            0 <= k < i + 1 && eligible@[k] == v && has_part(self@.parts, v) {
                            let k = choose|k: int|
                                0 <= k < i + 1 && eligible@[k] == v && has_part(self@.parts, v);
                            if k < i {
                                assert(pre_out.contains(v));
                                let m = choose|m: int|
                                    0 <= m < pre_out.len() && pre_out[m] == v;
                                assert(out@[m] == v);
                            } else {
                                assert(v == u);
                                assert(out@[pre_out.len() as int] == v);
                            }
                        }
                    }
                    assert(out@.no_duplicates()) by {
                        assert(!pre_out.contains(u)) by {
                            if pre_out.contains(u) {
                                let k = choose|k: int|
                                    0 <= k < i && eligible@[k] == u && has_part(self@.parts, u);
                                assert(eligible@[k] == eligible@[i as int] && k != i);
                            }
                        }
                        assert(forall|k: int| 0 <= k < pre_out.len() ==> out@[k] == pre_out[k]);
                        assert(out@[pre_out.len() as int] == u);
                    }
                }
            } else {
                proof {
                    assert forall|v: usize|
                        out@.contains(v) <==> (exists|k: int|
                            0 <= k < i + 1 && eligible@[k] == v && has_part(self@.parts, v)) by {
                        if exists|k: int|
                            0 <= k < i + 1 && eligible@[k] == v && has_part(self@.parts, v) {
                            let k = choose|k: int|
                                0 <= k < i + 1 && eligible@[k] == v && has_part(self@.parts, v);
                            if k == i {
                                assert(v == u && has_part(self@.parts, u));
                                assert(false);
                            }
                        }
                    }
                }
            }
            i += 1;
        }
        proof {
            assert forall|u: usize|
                out@.contains(u) <==> (spec_eligible(self@.convos[ci as int], u, excluding)
                    && has_part(self@.parts, u)) by {
                if spec_eligible(self@.convos[ci as int], u, excluding) && has_part(
                    self@.parts,
                    u,
                ) {
                    assert(eligible@.contains(u));
                    let k = choose|k: int| 0 <= k < eligible@.len() && eligible@[k] == u;
                }
                if out@.contains(u) {
                    let k = choose|k: int|
                        0 <= k < n && eligible@[k] == u && has_part(self@.parts, u);
                    assert(eligible@.contains(u));
                }
            }
        }
        Ok(out)
    }

    /// Whether `convo` exists and `userid` may mutate it.
    pub fn check_permissions(&self, convo: usize, userid: usize) -> (r: bool)
        requires
            self.wf(),
        ensures
            r == (has_convo(self@.convos, convo) && spec_may_mutate(
                spec_level(self@.convos[convo_at(self@.convos, convo)], userid),
            )),
    {
        match self.find_convo(convo) {
            Some(ci) => {
                proof {
                    let c0 = convo_at(self@.convos, convo);
                    assert(has_convo(self@.convos, convo));
                    assert(0 <= c0 < self@.convos.len() && self@.convos[c0].id == convo);
                    assert(c0 == ci as int) by {
                        if c0 != ci as int {
                            assert(self@.convos[c0].id != self@.convos[ci as int].id);
                        }
                    }
                }
                self.conversations[ci].has_permission(userid)
            }
            None => false,
        }
    }

    /// Splices `text` into the committed buffer of `convo` at the
    /// normalized selection, when `userid` may mutate it. An unknown
    /// conversation is `NotFound`; a denied participant is `Denied`;
    /// either failure changes nothing.
    pub fn replace_committed(
        &mut self,
        convo: usize,
        userid: usize,
        selection: Selection,
        text: &String,
    ) -> (r: Result<(), EngineError>)
        requires
            old(self).wf(),
        ensures
            final(self).wf(),
            final(self)@.parts == old(self)@.parts,
            !has_convo(old(self)@.convos, convo) ==> r == Err::<(), EngineError>(
                EngineError::NotFound,
            ) && final(self)@ == old(self)@,
            has_convo(old(self)@.convos, convo) ==> {
                let ci = convo_at(old(self)@.convos, convo);
                let level = spec_level(old(self)@.convos[ci], userid);
                &&& (!spec_may_mutate(level) ==> r == Err::<(), EngineError>(EngineError::Denied)
                    && final(self)@ == old(self)@)
                &&& (spec_may_mutate(level) ==> r is Ok && final(self)@ == (RegistryModel {
                    convos: old(self)@.convos.update(
                        ci,
                        ConvoModel {
                            buffer: spliced(
                                old(self)@.convos[ci].buffer,
                                selection.start as int,
                                selection.end as int,
                                text@,
                            ),
                            ..old(self)@.convos[ci]
                        },
                    ),
                    ..old(self)@
                }))
            },
    {
        let ci = match self.find_convo(convo) {
            Some(i) => i,
            None => {
                assert(final(self)@ =~= old(self)@);
                return Err(EngineError::NotFound);
            }
        };
        proof {
            let c0 = convo_at(old(self)@.convos, convo);
            assert(has_convo(old(self)@.convos, convo));
            assert(0 <= c0 < old(self)@.convos.len() && old(self)@.convos[c0].id == convo);
            assert(c0 == ci as int) by {
                if c0 != ci as int {
                    assert(old(self)@.convos[c0].id != old(self)@.convos[ci as int].id);
                }
            }
        }
        let c = &mut self.conversations[ci];
        let r = c.apply_replace(userid, selection, text);
        proof {
            let pre_c = old(self)@.convos[ci as int];
            if spec_may_mutate(spec_level(pre_c, userid)) {
                assert(final(self)@ =~= (RegistryModel {
                    convos: old(self)@.convos.update(
                        ci as int,
                        ConvoModel {
                            buffer: spliced(
                                pre_c.buffer,
                                selection.start as int,
                                selection.end as int,
                                text@,
                            ),
                            ..pre_c
                        },
                    ),
                    ..old(self)@
                }));
            } else {
                assert(final(self)@ =~= old(self)@);
            }
            assert forall|p: int, q: int|
                0 <= p < q < final(self)@.convos.len() implies final(self)@.convos[p].id
                != final(self)@.convos[q].id by {
                assert(final(self)@.convos[p].id == old(self)@.convos[p].id);
                assert(final(self)@.convos[q].id == old(self)@.convos[q].id);
            }
        }
        r
    }

    /// Splices `text` into `userid`'s own draft in `convo` at the
    /// normalized selection, carrying the supplied nickname and
    /// caller-assigned timestamp. An unknown conversation is `NotFound`; a
    /// denied participant is `Denied`; either failure changes nothing.
    pub fn replace_draft(
        &mut self,
        convo: usize,
        userid: usize,
        nick: Nick,
        stamp: u64,
        selection: Selection,
        text: String,
    ) -> (r: Result<(), EngineError>)
        requires
            old(self).wf(),
        ensures
            final(self).wf(),
            final(self)@.parts == old(self)@.parts,
            !has_convo(old(self)@.convos, convo) ==> r == Err::<(), EngineError>(
                EngineError::NotFound,
            ) && final(self)@ == old(self)@,
            has_convo(old(self)@.convos, convo) ==> {
                let ci = convo_at(old(self)@.convos, convo);
                let level = spec_level(old(self)@.convos[ci], userid);
                &&& (!spec_may_mutate(level) ==> r == Err::<(), EngineError>(EngineError::Denied)
                    && final(self)@ == old(self)@)
                &&& (spec_may_mutate(level) ==> r is Ok && final(self)@ == (RegistryModel {
                    convos: old(self)@.convos.update(
                        ci,
                        ConvoModel {
                            workspace: apply_change(
                                old(self)@.convos[ci].workspace,
                                ChangeModel {
                                    sender_ip: userid as u128,
                                    sender_nick: nick_chars(nick),
                                    stamp: stamp,
                                    action: ActionModel::Replace(
                                        selection.start as int,
                                        selection.end as int,
                                        text@,
                                    ),
                                },
                            ),
                            ..old(self)@.convos[ci]
                        },
                    ),
                    ..old(self)@
                }))
            },
    {
        let ci = match self.find_convo(convo) {
            Some(i) => i,
            None => {
                assert(final(self)@ =~= old(self)@);
                return Err(EngineError::NotFound);
            }
        };
        proof {
            let c0 = convo_at(old(self)@.convos, convo);
            assert(has_convo(old(self)@.convos, convo));
            assert(0 <= c0 < old(self)@.convos.len() && old(self)@.convos[c0].id == convo);
            assert(c0 == ci as int) by {
                if c0 != ci as int {
                    assert(old(self)@.convos[c0].id != old(self)@.convos[ci as int].id);
                }
            }
        }
        let ghost cm = ChangeModel {
            sender_ip: userid as u128,
            sender_nick: nick_chars(nick),
            stamp: stamp,
            action: ActionModel::Replace(selection.start as int, selection.end as int, text@),
        };
        let c = &mut self.conversations[ci];
        let r = c.draft_replace(userid, nick, stamp, selection, text);
        proof {
            let pre_c = old(self)@.convos[ci as int];
            if spec_may_mutate(spec_level(pre_c, userid)) {
                assert(final(self)@ =~= (RegistryModel {
                    convos: old(self)@.convos.update(
                        ci as int,
                        ConvoModel { workspace: apply_change(pre_c.workspace, cm), ..pre_c },
                    ),
                    ..old(self)@
                }));
            } else {
                assert(final(self)@ =~= old(self)@);
            }
            assert forall|p: int, q: int|
                0 <= p < q < final(self)@.convos.len() implies final(self)@.convos[p].id
                != final(self)@.convos[q].id by {
                assert(final(self)@.convos[p].id == old(self)@.convos[p].id);
                assert(final(self)@.convos[q].id == old(self)@.convos[q].id);
            }
        }
        r
    }

    /// Solidifies `userid`'s draft in `convo` into the message log,
    /// carrying the supplied nickname and caller-assigned timestamp. An
    /// unknown conversation is `NotFound`; a denied participant is
    /// `Denied`; either failure changes nothing.
    pub fn commit_draft(&mut self, convo: usize, userid: usize, nick: Nick, stamp: u64) -> (r:
        Result<(), EngineError>)
        requires
            old(self).wf(),
        ensures
            final(self).wf(),
            final(self)@.parts == old(self)@.parts,
            !has_convo(old(self)@.convos, convo) ==> r == Err::<(), EngineError>(
                EngineError::NotFound,
            ) && final(self)@ == old(self)@,
            has_convo(old(self)@.convos, convo) ==> {
                let ci = convo_at(old(self)@.convos, convo);
                let level = spec_level(old(self)@.convos[ci], userid);
                &&& (!spec_may_mutate(level) ==> r == Err::<(), EngineError>(EngineError::Denied)
                    && final(self)@ == old(self)@)
                &&& (spec_may_mutate(level) ==> r is Ok && final(self)@ == (RegistryModel {
                    convos: old(self)@.convos.update(
                        ci,
                        ConvoModel {
                            workspace: apply_change(
                                old(self)@.convos[ci].workspace,
                                ChangeModel {
                                    sender_ip: userid as u128,
                                    sender_nick: nick_chars(nick),
                                    stamp: stamp,
                                    action: ActionModel::Solidify,
                                },
                            ),
                            ..old(self)@.convos[ci]
                        },
                    ),
                    ..old(self)@
                }))
            },
    {
        let ci = match self.find_convo(convo) {
            Some(i) => i,
            None => {
                assert(final(self)@ =~= old(self)@);
                return Err(EngineError::NotFound);
            }
        };
        proof {
            let c0 = convo_at(old(self)@.convos, convo);
            assert(has_convo(old(self)@.convos, convo));
            assert(0 <= c0 < old(self)@.convos.len() && old(self)@.convos[c0].id == convo);
            assert(c0 == ci as int) by {
                if c0 != ci as int {
                    assert(old(self)@.convos[c0].id != old(self)@.convos[ci as int].id);
                }
            }
        }
        let ghost cm = ChangeModel {
            sender_ip: userid as u128,
            sender_nick: nick_chars(nick),
            stamp: stamp,
            action: ActionModel::Solidify,
        };
        let c = &mut self.conversations[ci];
        let r = c.commit_draft(userid, nick, stamp);
        proof {
            let pre_c = old(self)@.convos[ci as int];
            if spec_may_mutate(spec_level(pre_c, userid)) {
                assert(final(self)@ =~= (RegistryModel {
                    convos: old(self)@.convos.update(
                        ci as int,
                        ConvoModel { workspace: apply_change(pre_c.workspace, cm), ..pre_c },
                    ),
                    ..old(self)@
                }));
            } else {
                assert(final(self)@ =~= old(self)@);
            }
            assert forall|p: int, q: int|
                0 <= p < q < final(self)@.convos.len() implies final(self)@.convos[p].id
                != final(self)@.convos[q].id by {
                assert(final(self)@.convos[p].id == old(self)@.convos[p].id);
                assert(final(self)@.convos[q].id == old(self)@.convos[q].id);
            }
        }
        r
    }

    /// The conversation carrying `id`, if any.
    pub fn get_convo(&self, id: usize) -> (r: Option<&Conversation>)
        requires
            self.wf(),
        ensures
            match r {
                Some(c) => has_convo(self@.convos, id) && c@ == self@.convos[convo_at(
                    self@.convos,
                    id,
                )],
                None => !has_convo(self@.convos, id),
            },
    {
        match self.find_convo(id) {
            Some(ci) => {
                proof {
                    let c0 = convo_at(self@.convos, id);
                    assert(has_convo(self@.convos, id));
                    assert(0 <= c0 < self@.convos.len() && self@.convos[c0].id == id);
                    assert(c0 == ci as int) by {
                        if c0 != ci as int {
                            assert(self@.convos[c0].id != self@.convos[ci as int].id);
                        }
                    }
                }
                Some(&self.conversations[ci])
            }
            None => None,
        }
    }

    /// The participant carrying `id`, if any.
    pub fn get_participant(&self, id: usize) -> (r: Option<&Participant>)
        requires
            self.wf(),
        ensures
            match r {
                Some(p) => has_part(self@.parts, id) && p@ == self@.parts[part_at(
                    self@.parts,
                    id,
                )],
                None => !has_part(self@.parts, id),
            },
    {
        match self.find_part(id) {
            Some(pi) => {
                proof {
                    let p0 = part_at(self@.parts, id);
                    assert(has_part(self@.parts, id));
                    assert(0 <= p0 < self@.parts.len() && self@.parts[p0].id == id);
                    assert(p0 == pi as int) by {
                        if p0 != pi as int {
                            assert(self@.parts[p0].id != self@.parts[pi as int].id);
                        }
                    }
                }
                Some(&self.participants[pi])
            }
            None => None,
        }
    }
}

} // verus!
