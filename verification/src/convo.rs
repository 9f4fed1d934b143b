//! A conversation: one committed text buffer, the membership sets that
//! decide who may touch it, the per-sender draft workspace, and the
//! message log drafts solidify into.

use vstd::prelude::*;
use crate::errors::EngineError;
use crate::ids::{has_id, insert_id, remove_id, spec_insert, spec_removed};
use crate::nick::{Nick, nick_chars};
use crate::perm::{Permissions, may_mutate, spec_may_mutate};
use crate::selection::Selection;
use crate::textbuf::{spliced, splice_text};
use crate::workspace::{
    Action, ActionModel, Change, ChangeModel, Workspace, WorkspaceModel, apply_change,
    lemma_apply_change_wf, wf_drafts,
};

verus! {

/// A named conversation owned by one participant.
pub struct Conversation {
    id: usize,
    name: String,
    buffer: String,
    owner: usize,
    admins: Vec<usize>,
    users: Vec<usize>,
    banned: Vec<usize>,
    private: bool,
    workspace: Workspace,
}

/// The mathematical value of a [`Conversation`].
#[verifier::ext_equal]
pub struct ConvoModel {
    pub id: usize,
    pub name: Seq<char>,
    pub buffer: Seq<char>,
    pub owner: usize,
    pub admins: Seq<usize>,
    pub users: Seq<usize>,
    pub banned: Seq<usize>,
    pub private: bool,
    pub workspace: WorkspaceModel,
}

impl View for Conversation {
    type V = ConvoModel;

    closed spec fn view(&self) -> ConvoModel {
        ConvoModel {
            id: self.id,
            name: self.name@,
            buffer: self.buffer@,
            owner: self.owner,
            admins: self.admins@,
            users: self.users@,
            banned: self.banned@,
            private: self.private,
            workspace: self.workspace@,
        }
    }
}

/// The participant's access level, evaluated in strict precedence order:
/// owner first, then the banned set, then admins, then users; anyone
/// matching none of these is `Apart`. The order is load-bearing: an owner
/// stale in the banned set still resolves to `Owner`.
pub open spec fn spec_level(c: ConvoModel, userid: usize) -> Permissions {
    if c.owner == userid {
        Permissions::Owner
    } else if c.banned.contains(userid) {
        Permissions::Banned
    } else if c.admins.contains(userid) {
        Permissions::Admin
    } else if c.users.contains(userid) {
        Permissions::User
    } else {
        Permissions::Apart
    }
}

/// Whether `userid` should receive a broadcast of this conversation that
/// excludes `excluding`: some membership role, not the excluded sender,
/// and not currently banned — even when the banned id is also stale in a
/// member set.
pub open spec fn spec_eligible(c: ConvoModel, userid: usize, excluding: usize) -> bool {
    (userid == c.owner || c.admins.contains(userid) || c.users.contains(userid))
        && userid != excluding && !c.banned.contains(userid)
}

/// The membership invariant: the sets hold no duplicates, the owner is
/// never banned, the banned set is disjoint from admins and users, and
/// drafts are unique per sender.
pub open spec fn convo_wf(c: ConvoModel) -> bool {
    &&& c.admins.no_duplicates()
    &&& c.users.no_duplicates()
    &&& c.banned.no_duplicates()
    &&& !c.banned.contains(c.owner)
    &&& (forall|u: usize|
        c.banned.contains(u) ==> !c.admins.contains(u) && !c.users.contains(u))
    &&& wf_drafts(c.workspace.buffers)
}

/// The model of a freshly created conversation: empty buffer, empty
/// membership sets, empty workspace, private, owned by `owner`.
pub open spec fn fresh_convo(id: usize, name: Seq<char>, owner: usize) -> ConvoModel {
    ConvoModel {
        id: id,
        name: name,
        buffer: Seq::<char>::empty(),
        owner: owner,
        admins: Seq::<usize>::empty(),
        users: Seq::<usize>::empty(),
        banned: Seq::<usize>::empty(),
        private: true,
        workspace: WorkspaceModel {
            messages: Seq::<crate::workspace::MessageModel>::empty(),
            buffers: Seq::<crate::workspace::MessageModel>::empty(),
        },
    }
}

impl Conversation {
    /// The membership invariant, stated over the conversation's model.
    pub open spec fn wf(&self) -> bool {
        convo_wf(self@)
    }

    /// A fresh conversation: empty buffer, empty membership sets, empty
    /// workspace, private, owned by `owner`.
    pub fn new(id: usize, name: String, owner: usize) -> (c: Conversation)
        ensures
            c.wf(),
            c@ == fresh_convo(id, name@, owner),
    {
        let c = Conversation {
            id,
            name,
            buffer: String::new(),
            owner,
            admins: Vec::new(),
            users: Vec::new(),
            banned: Vec::new(),
            private: true,
            workspace: Workspace::new(),
        };
        proof {
            assert(c@ =~~= fresh_convo(id, c@.name, owner));
        }
        c
    }

    /// The participant's access level; total, so always `Some`.
    pub fn get_user_permissions(&self, userid: usize) -> (r: Option<Permissions>)
        ensures
            r == Some(spec_level(self@, userid)),
    {
        if self.owner == userid {
            return Some(Permissions::Owner);
        }
        if has_id(&self.banned, userid) {
            return Some(Permissions::Banned);
        }
        if has_id(&self.admins, userid) {
            return Some(Permissions::Admin);
        }
        if has_id(&self.users, userid) {
            return Some(Permissions::User);
        }
        Some(Permissions::Apart)
    }

    /// Whether the participant may mutate this conversation: true for
    /// `Owner`, `Admin` and `User`, false for `Banned` and `Apart`.
    pub fn has_permission(&self, userid: usize) -> (r: bool)
        ensures
            r == spec_may_mutate(spec_level(self@, userid)),
    {
        if let Some(p) = self.get_user_permissions(userid) {
            may_mutate(p)
        } else {
            false
        }
    }

    /// Replaces the whole committed buffer with `s`, when the participant
    /// may mutate; a denied participant changes nothing.
    pub fn set_buffer(&mut self, userid: usize, s: String)
        requires
            old(self).wf(),
        ensures
            final(self).wf(),
            spec_may_mutate(spec_level(old(self)@, userid)) ==> final(self)@ == (ConvoModel {
                buffer: s@,
                ..old(self)@
            }),
            !spec_may_mutate(spec_level(old(self)@, userid)) ==> final(self)@ == old(self)@,
    {
        if self.has_permission(userid) {
            self.buffer = s;
            assert(final(self)@ =~= (ConvoModel { buffer: s@, ..old(self)@ }));
        } else {
            assert(final(self)@ =~= old(self)@);
        }
    }

    /// Splices `text` into the committed buffer at the normalized
    /// selection, when the participant may mutate; otherwise the operation
    /// is denied and nothing — buffer, drafts, log — changes.
    pub fn apply_replace(&mut self, userid: usize, selection: Selection, text: &String) -> (r:
        Result<(), EngineError>)
        requires
            old(self).wf(),
        ensures
            final(self).wf(),
            spec_may_mutate(spec_level(old(self)@, userid)) ==> r is Ok && final(self)@
                == (ConvoModel {
                buffer: spliced(
                    old(self)@.buffer,
                    selection.start as int,
                    selection.end as int,
                    text@,
                ),
                ..old(self)@
            }),
            !spec_may_mutate(spec_level(old(self)@, userid)) ==> r == Err::<(), EngineError>(
                EngineError::Denied,
            ) && final(self)@ == old(self)@,
    {
        if self.has_permission(userid) {
            let new_buf = splice_text(&self.buffer, selection, text);
            self.buffer = new_buf;
            assert(final(self)@ =~= (ConvoModel {
                buffer: spliced(
                    old(self)@.buffer,
                    selection.start as int,
                    selection.end as int,
                    text@,
                ),
                ..old(self)@
            }));
            Ok(())
        } else {
            assert(final(self)@ =~= old(self)@);
            Err(EngineError::Denied)
        }
    }

    /// Splices `text` into the participant's own draft at the normalized
    /// selection, when the participant may mutate; otherwise the operation
    /// is denied and nothing changes.
    pub fn draft_replace(
        &mut self,
        userid: usize,
        nick: Nick,
        stamp: u64,
        selection: Selection,
        text: String,
    ) -> (r: Result<(), EngineError>)
        requires
            old(self).wf(),
        ensures
            final(self).wf(),
            spec_may_mutate(spec_level(old(self)@, userid)) ==> r is Ok && final(self)@
                == (ConvoModel {
                workspace: apply_change(
                    old(self)@.workspace,
                    ChangeModel {
                        sender_ip: userid as u128,
                        sender_nick: nick_chars(nick),
                        stamp: stamp,
                        action: ActionModel::Replace(
                            selection.start as int,
                            selection.end as int,
                            text@,
                        ),
                    },
                ),
                ..old(self)@
            }),
            !spec_may_mutate(spec_level(old(self)@, userid)) ==> r == Err::<(), EngineError>(
                EngineError::Denied,
            ) && final(self)@ == old(self)@,
    {
        if self.has_permission(userid) {
            let change = Change {
                sender_ip: userid as u128,
                sender_nick: nick,
                stamp,
                action: Action::Replace(selection, text),
            };
            let ghost cm = change@;
            self.workspace.change(change);
            proof {
                lemma_apply_change_wf(old(self)@.workspace, cm);
                assert(final(self)@ =~= (ConvoModel {
                    workspace: apply_change(old(self)@.workspace, cm),
                    ..old(self)@
                }));
            }
            Ok(())
        } else {
            assert(final(self)@ =~= old(self)@);
            Err(EngineError::Denied)
        }
    }

    /// Solidifies the participant's draft: appends it, with the supplied
    /// nickname and caller-assigned timestamp, to the message log and
    /// resets the draft to empty — when the participant may mutate;
    /// otherwise the operation is denied and nothing changes.
    pub fn commit_draft(&mut self, userid: usize, nick: Nick, stamp: u64) -> (r: Result<
        (),
        EngineError,
    >)
        requires
            old(self).wf(),
        ensures
            final(self).wf(),
            spec_may_mutate(spec_level(old(self)@, userid)) ==> r is Ok && final(self)@
                == (ConvoModel {
                workspace: apply_change(
                    old(self)@.workspace,
                    ChangeModel {
                        sender_ip: userid as u128,
                        sender_nick: nick_chars(nick),
                        stamp: stamp,
                        action: ActionModel::Solidify,
                    },
                ),
                ..old(self)@
            }),
            !spec_may_mutate(spec_level(old(self)@, userid)) ==> r == Err::<(), EngineError>(
                EngineError::Denied,
            ) && final(self)@ == old(self)@,
    {
        if self.has_permission(userid) {
            let change = Change {
                sender_ip: userid as u128,
                sender_nick: nick,
                stamp,
                action: Action::Solidify,
            };
            let ghost cm = change@;
            self.workspace.change(change);
            proof {
                lemma_apply_change_wf(old(self)@.workspace, cm);
                assert(final(self)@ =~= (ConvoModel {
                    workspace: apply_change(old(self)@.workspace, cm),
                    ..old(self)@
                }));
            }
            Ok(())
        } else {
            assert(final(self)@ =~= old(self)@);
            Err(EngineError::Denied)
        }
    }

    /// The ids that should receive a broadcast of this conversation when
    /// `excluding` originated it: every owner/admin/user id except the
    /// excluded sender and except anyone currently banned, each id once.
    pub fn recipients(&self, excluding: usize) -> (r: Vec<usize>)
        ensures
            forall|u: usize| r@.contains(u) <==> spec_eligible(self@, u, excluding),
            r@.no_duplicates(),
    {
        let ghost c = self@;
        let mut r: Vec<usize> = Vec::new();
        if self.owner != excluding && !has_id(&self.banned, self.owner) {
            r.push(self.owner);
            proof {
                assert(r@[0] == c.owner);
                assert(r@.contains(c.owner));
                assert forall|u: usize| r@.contains(u) implies spec_eligible(c, u, excluding) by {
                    let k = choose|k: int| 0 <= k < r@.len() && r@[k] == u;
                    assert(u == c.owner);
                }
                assert(r@.no_duplicates());
            }
        } else {
            proof {
                assert(forall|u: usize| !r@.contains(u));
                assert(r@.no_duplicates());
            }
        }
        let na = self.admins.len();
        let mut i: usize = 0;
        while i < na
            invariant
                na == c.admins.len(),
                i <= na,
                self@ == c,
                forall|u: usize| #[trigger] r@.contains(u) ==> spec_eligible(c, u, excluding),
                spec_eligible(c, c.owner, excluding) ==> r@.contains(c.owner),
                forall|k: int|
                    0 <= k < i ==> (spec_eligible(c, c.admins[k], excluding) ==> r@.contains(
                        c.admins[k],
                    )),
                r@.no_duplicates(),
            decreases na - i,
        {
            let a = self.admins[i];
            if a != excluding && !has_id(&self.banned, a) {
                insert_id(&mut r, a);
            }
            i += 1;
        }
        let nu = self.users.len();
        let mut j: usize = 0;
        while j < nu
            invariant
                nu == c.users.len(),
                j <= nu,
                self@ == c,
                forall|u: usize| #[trigger] r@.contains(u) ==> spec_eligible(c, u, excluding),
                spec_eligible(c, c.owner, excluding) ==> r@.contains(c.owner),
                forall|k: int|
                    0 <= k < c.admins.len() ==> (spec_eligible(c, c.admins[k], excluding)
                        ==> r@.contains(c.admins[k])),
                forall|k: int|
                    0 <= k < j ==> (spec_eligible(c, c.users[k], excluding) ==> r@.contains(
                        c.users[k],
                    )),
                r@.no_duplicates(),
            decreases nu - j,
        {
            let u = self.users[j];
            if u != excluding && !has_id(&self.banned, u) {
                insert_id(&mut r, u);
            }
            j += 1;
        }
        proof {
            assert forall|u: usize| r@.contains(u) <==> spec_eligible(c, u, excluding) by {
                if spec_eligible(c, u, excluding) {
                    if u == c.owner {
                        assert(r@.contains(u));
                    } else if c.admins.contains(u) {
                        let k = choose|k: int| 0 <= k < c.admins.len() && c.admins[k] == u;
                        assert(r@.contains(c.admins[k]));
                    } else {
                        let k = choose|k: int| 0 <= k < c.users.len() && c.users[k] == u;
                        assert(r@.contains(c.users[k]));
                    }
                }
            }
        }
        r
    }

    /// Hands `userid` ownership, unless that id is currently banned (the
    /// owner can never be banned); everything else stays as it was.
    pub fn set_owner(&mut self, userid: usize)
        requires
            old(self).wf(),
        ensures
            final(self).wf(),
            !old(self)@.banned.contains(userid) ==> final(self)@ == (ConvoModel {
                owner: userid,
                ..old(self)@
            }),
            old(self)@.banned.contains(userid) ==> final(self)@ == old(self)@,
    {
        if !has_id(&self.banned, userid) {
            self.owner = userid;
            assert(final(self)@ =~= (ConvoModel { owner: userid, ..old(self)@ }));
        } else {
            assert(final(self)@ =~= old(self)@);
        }
    }

    /// Adds `userid` to the admin set, unless that id is currently banned
    /// (the banned set stays disjoint from the others); adding an id twice
    /// changes nothing.
    pub fn add_admin(&mut self, userid: usize)
        requires
            old(self).wf(),
        ensures
            final(self).wf(),
            final(self)@ == (ConvoModel {
                admins: if old(self)@.banned.contains(userid) {
                    old(self)@.admins
                } else {
                    spec_insert(old(self)@.admins, userid)
                },
                ..old(self)@
            }),
            forall|u: usize|
                final(self)@.admins.contains(u) <==> (old(self)@.admins.contains(u) || (u == userid
                    && !old(self)@.banned.contains(userid))),
    {
        if !has_id(&self.banned, userid) {
            insert_id(&mut self.admins, userid);
        }
        assert(final(self)@ =~= (ConvoModel { admins: final(self)@.admins, ..old(self)@ }));
    }

    /// Adds `userid` to the user (member) set, unless that id is currently
    /// banned; adding an id twice changes nothing.
    pub fn add_user(&mut self, userid: usize)
        requires
            old(self).wf(),
        ensures
            final(self).wf(),
            final(self)@ == (ConvoModel {
                users: if old(self)@.banned.contains(userid) {
                    old(self)@.users
                } else {
                    spec_insert(old(self)@.users, userid)
                },
                ..old(self)@
            }),
            forall|u: usize|
                final(self)@.users.contains(u) <==> (old(self)@.users.contains(u) || (u == userid
                    && !old(self)@.banned.contains(userid))),
    {
        if !has_id(&self.banned, userid) {
            insert_id(&mut self.users, userid);
        }
        assert(final(self)@ =~= (ConvoModel { users: final(self)@.users, ..old(self)@ }));
    }

    /// Bans `userid`: adds it to the banned set and evicts it from the
    /// admin and user sets, keeping the sets disjoint. The owner cannot be
    /// banned; banning the owner changes nothing.
    pub fn ban(&mut self, userid: usize)
        requires
            old(self).wf(),
        ensures
            final(self).wf(),
            userid == old(self)@.owner ==> final(self)@ == old(self)@,
            userid != old(self)@.owner ==> {
                &&& final(self)@ == (ConvoModel {
                    admins: spec_removed(old(self)@.admins, userid),
                    users: spec_removed(old(self)@.users, userid),
                    banned: spec_insert(old(self)@.banned, userid),
                    ..old(self)@
                })
                &&& (forall|u: usize|
                    final(self)@.banned.contains(u) <==> (old(self)@.banned.contains(u) || u
                        == userid))
                &&& (forall|u: usize|
                    final(self)@.admins.contains(u) <==> (old(self)@.admins.contains(u) && u
                        != userid))
                &&& (forall|u: usize|
                    final(self)@.users.contains(u) <==> (old(self)@.users.contains(u) && u
                        != userid))
            },
    {
        if userid == self.owner {
            assert(final(self)@ =~= old(self)@);
            return;
        }
        remove_id(&mut self.admins, userid);
        remove_id(&mut self.users, userid);
        insert_id(&mut self.banned, userid);
        assert(final(self)@ =~= (ConvoModel {
            admins: spec_removed(old(self)@.admins, userid),
            users: spec_removed(old(self)@.users, userid),
            banned: spec_insert(old(self)@.banned, userid),
            ..old(self)@
        }));
    }

    /// Sets the privacy flag.
    pub fn toggle_private(&mut self, b: bool)
        requires
            old(self).wf(),
        ensures
            final(self).wf(),
            final(self)@ == (ConvoModel { private: b, ..old(self)@ }),
    {
        self.private = b;
        assert(final(self)@ =~= (ConvoModel { private: b, ..old(self)@ }));
    }

    /// The conversation's identifier.
    pub fn id(&self) -> (r: &usize)
        ensures
            *r == self@.id,
    {
        &self.id
    }

    /// The conversation's display name.
    pub fn name(&self) -> (r: &String)
        ensures
            r@ == self@.name,
    {
        &self.name
    }

    /// The committed buffer.
    pub fn buffer(&self) -> (r: &String)
        ensures
            r@ == self@.buffer,
    {
        &self.buffer
    }

    /// The owner's identifier.
    pub fn owner(&self) -> (r: &usize)
        ensures
            *r == self@.owner,
    {
        &self.owner
    }

    /// The admin identifiers.
    pub fn admins(&self) -> (r: &Vec<usize>)
        ensures
            r@ == self@.admins,
    {
        &self.admins
    }

    /// The user (member) identifiers.
    pub fn users(&self) -> (r: &Vec<usize>)
        ensures
            r@ == self@.users,
    {
        &self.users
    }

    /// The banned identifiers.
    pub fn banned(&self) -> (r: &Vec<usize>)
        ensures
            r@ == self@.banned,
    {
        &self.banned
    }

    /// The privacy flag.
    pub fn private(&self) -> (r: &bool)
        ensures
            *r == self@.private,
    {
        &self.private
    }

    /// The draft workspace and message log.
    pub fn workspace(&self) -> (r: &Workspace)
        ensures
            r@ == self@.workspace,
    {
        &self.workspace
    }
}

/// Permission precedence: the owner check dominates, so a participant
/// present in both the owner role and the banned set resolves to `Owner`,
/// not `Banned`.
pub proof fn lemma_owner_precedence(c: ConvoModel, userid: usize)
    requires
        c.owner == userid,
    ensures
        spec_level(c, userid) == Permissions::Owner,
{
}

/// Routing never includes the excluded sender nor any id currently in the
/// banned set, even when that id is also present in a member set.
pub proof fn lemma_recipients_exclude(c: ConvoModel, excluding: usize, userid: usize)
    requires
        userid == excluding || c.banned.contains(userid),
    ensures
        !spec_eligible(c, userid, excluding),
{
}

} // verus!
