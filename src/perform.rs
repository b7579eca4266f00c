use vstd::prelude::*;

use crate::action::Action;
use crate::identity::lemma_id_of_bounds;
use crate::model::{lemma_count_push, lemma_count_update};
use crate::state::{grew_from, lemma_change_role_grows, lemma_grew_from_refl, MultisigView, StateModule};
use crate::types::{ActionId, ActionStatus, Address, AddressId, GroupId, MultisigError, UserRole, MAX_BOARD_MEMBERS};

verus! {

impl MultisigView {
    /// What performing action `id` does to the state, before its status changes.
    /// Role changes keep the board within `MAX_BOARD_MEMBERS`, non-empty and no
    /// smaller than the quorum; an action with an outside effect fails where the
    /// host reported its effect as failed (`failed` holds its id).
    pub open spec fn effect(self, id: ActionId, failed: Seq<ActionId>) -> Result<MultisigView, MultisigError> {
        match self.action_data[id - 1] {
            Action::AddBoardMember(a) => {
                let w = self.change_role(a, UserRole::BoardMember);
                if w.num_board_members() > MAX_BOARD_MEMBERS {
                    Err(MultisigError::BoardSizeExceeded)
                } else {
                    Ok(w)
                }
            },
            Action::AddProposer(a) => {
                let w = self.change_role(a, UserRole::Proposer);
                if w.quorum > w.num_board_members() {
                    Err(MultisigError::QuorumExceedsBoardSize)
                } else {
                    Ok(w)
                }
            },
            Action::RemoveUser(a) => {
                let w = self.change_role(a, UserRole::Unassigned);
                if w.num_board_members() == 0 {
                    Err(MultisigError::CannotRemoveAllBoardMembers)
                } else if w.quorum > w.num_board_members() {
                    Err(MultisigError::QuorumExceedsBoardSize)
                } else {
                    Ok(w)
                }
            },
            Action::ChangeQuorum(q) => {
                if q > self.num_board_members() {
                    Err(MultisigError::QuorumExceedsBoardSize)
                } else {
                    Ok(MultisigView { quorum: q, ..self })
                }
            },
            _ => {
                if failed.contains(id) {
                    Err(MultisigError::EffectFailed)
                } else {
                    Ok(self)
                }
            },
        }
    }

    /// Performing pending action `id`: its quorum snapshot must be met by the
    /// signers that hold the board-member role now; then its effect applies and it
    /// becomes `Performed`.
    pub open spec fn perform_pending(self, id: ActionId, failed: Seq<ActionId>) -> Result<MultisigView, MultisigError> {
        if !self.spec_quorum_reached(id) {
            Err(MultisigError::QuorumNotReached)
        } else {
            match self.effect(id, failed) {
                Ok(w) => Ok(MultisigView { statuses: w.statuses.update(id - 1, ActionStatus::Performed), ..w }),
                Err(e) => Err(e),
            }
        }
    }

    /// The outcome of `perform_action`.
    pub open spec fn perform_result(self, caller: Address, id: ActionId, failed: Seq<ActionId>) -> Result<
        MultisigView,
        MultisigError,
    > {
        if !self.role_of_address(caller).spec_can_propose() {
            Err(MultisigError::Unauthorized)
        } else if !self.action_exists(id) {
            Err(MultisigError::ActionNotFound)
        } else if self.statuses[id - 1] != ActionStatus::Pending {
            Err(MultisigError::ActionNotPending)
        } else {
            self.perform_pending(id, failed)
        }
    }

    /// Performing, in order, each of `ids` that is still pending when its turn
    /// comes; the first failure is the outcome.
    pub open spec fn perform_ids(self, ids: Seq<ActionId>, failed: Seq<ActionId>) -> Result<
        MultisigView,
        MultisigError,
    >
        decreases ids.len(),
    {
        if ids.len() == 0 {
            Ok(self)
        } else if self.statuses[ids[0] - 1] != ActionStatus::Pending {
            self.perform_ids(ids.drop_first(), failed)
        } else {
            match self.perform_pending(ids[0], failed) {
                Ok(w) => w.perform_ids(ids.drop_first(), failed),
                Err(e) => Err(e),
            }
        }
    }

    /// The outcome of `perform_batch`.
    pub open spec fn perform_batch_result(self, caller: Address, g: GroupId, failed: Seq<ActionId>) -> Result<
        MultisigView,
        MultisigError,
    > {
        if !self.role_of_address(caller).spec_can_propose() {
            Err(MultisigError::Unauthorized)
        } else if !self.group_exists(g) {
            Err(MultisigError::GroupNotFound)
        } else if self.group_statuses[g - 1] != ActionStatus::Pending {
            Err(MultisigError::ActionNotPending)
        } else {
            match self.perform_ids(self.groups[g - 1], failed) {
                Ok(w) => Ok(
                    MultisigView {
                        group_statuses: w.group_statuses.update(g - 1, ActionStatus::Performed),
                        ..w
                    },
                ),
                Err(e) => Err(e),
            }
        }
    }
}

/// How a role change moves the board-member count.
pub proof fn lemma_change_role_board_count(v: MultisigView, a: Address, role: UserRole)
    requires
        v.roles.len() == v.users.len() + 1,
        v.roles[0] == UserRole::Unassigned,
        v.users.len() < u64::MAX,
    ensures
        v.change_role(a, role).num_board_members() + (if v.role_of_address(a) is BoardMember {
            1int
        } else {
            0int
        }) == v.num_board_members() + (if role is BoardMember {
            1int
        } else {
            0int
        }),
        v.change_role(a, role).roles.len() == v.change_role(a, role).users.len() + 1,
        v.change_role(a, role).roles[0] == UserRole::Unassigned,
{
    lemma_id_of_bounds(v.users, a);
    let id = v.user_id(a);
    if id == 0 {
        if !(role is Unassigned) {
            lemma_count_push(v.roles, role, UserRole::BoardMember);
        }
    } else {
        lemma_count_update(v.roles, id as int, role, UserRole::BoardMember);
    }
}

/// A successful effect only registers users, changes roles or the quorum.
pub proof fn lemma_effect_grows(v: MultisigView, prev: MultisigView, id: ActionId, failed: Seq<ActionId>)
    requires
        grew_from(v, prev),
        v.effect(id, failed) is Ok,
    ensures
        grew_from(v.effect(id, failed)->Ok_0, prev),
        v.effect(id, failed)->Ok_0.users.len() <= v.users.len() + 1,
        v.effect(id, failed)->Ok_0.statuses == v.statuses,
        v.effect(id, failed)->Ok_0.group_statuses == v.group_statuses,
{
    match v.action_data[id - 1] {
        Action::AddBoardMember(a) => lemma_change_role_grows(v, prev, a, UserRole::BoardMember),
        Action::AddProposer(a) => lemma_change_role_grows(v, prev, a, UserRole::Proposer),
        Action::RemoveUser(a) => lemma_change_role_grows(v, prev, a, UserRole::Unassigned),
        _ => {},
    }
}

impl StateModule {
    /// Carries out what action `action_id` does, checking first that it may; on
    /// failure nothing changes.
    fn apply_effect(&mut self, action_id: ActionId, failed: &Vec<ActionId>) -> (r: Result<(), MultisigError>)
        requires
            old(self).wf(),
            old(self)@.action_exists(action_id),
            old(self).has_room_for(1),
        ensures
            final(self).wf(),
            match old(self)@.effect(action_id, failed@) {
                Ok(w) => r is Ok && final(self)@ == w,
                Err(e) => r == Err::<(), MultisigError>(e) && final(self)@ == old(self)@,
            },
    {
        let ghost prev = self@;
        match &self.action_data[action_id - 1] {
            Action::AddBoardMember(a) => {
                let addr = *a;
                let was_board = self.user_role(&addr).can_sign();
                proof {
                    lemma_change_role_board_count(prev, addr, UserRole::BoardMember);
                }
                if !was_board && self.num_board_members + 1 > MAX_BOARD_MEMBERS {
                    return Err(MultisigError::BoardSizeExceeded);
                }
                self.change_user_role(&addr, UserRole::BoardMember);
                Ok(())
            },
            Action::AddProposer(a) => {
                let addr = *a;
                let was_board = self.user_role(&addr).can_sign();
                proof {
                    lemma_change_role_board_count(prev, addr, UserRole::Proposer);
                }
                let new_board = if was_board {
                    self.num_board_members - 1
                } else {
                    self.num_board_members
                };
                if self.quorum > new_board {
                    return Err(MultisigError::QuorumExceedsBoardSize);
                }
                self.change_user_role(&addr, UserRole::Proposer);
                Ok(())
            },
            Action::RemoveUser(a) => {
                let addr = *a;
                let was_board = self.user_role(&addr).can_sign();
                proof {
                    lemma_change_role_board_count(prev, addr, UserRole::Unassigned);
                }
                let new_board = if was_board {
                    self.num_board_members - 1
                } else {
                    self.num_board_members
                };
                if new_board == 0 {
                    return Err(MultisigError::CannotRemoveAllBoardMembers);
                }
                if self.quorum > new_board {
                    return Err(MultisigError::QuorumExceedsBoardSize);
                }
                self.change_user_role(&addr, UserRole::Unassigned);
                Ok(())
            },
            Action::ChangeQuorum(q) => {
                let new_quorum = *q;
                if new_quorum > self.num_board_members {
                    return Err(MultisigError::QuorumExceedsBoardSize);
                }
                self.quorum = new_quorum;
                Ok(())
            },
            _ => {
                if contains_action(failed, action_id) {
                    return Err(MultisigError::EffectFailed);
                }
                Ok(())
            },
        }
    }

    fn set_action_status(&mut self, action_id: ActionId, status: ActionStatus)
        requires
            old(self).wf(),
            old(self)@.action_exists(action_id),
        ensures
            final(self).wf(),
            final(self)@ == (MultisigView { statuses: old(self)@.statuses.update(action_id - 1, status), ..old(self)@ }),
    {
        let ghost prev = self@;
        self.action_statuses.set(action_id - 1, status);
        assert(self@.groups == prev.groups);
        assert(self@.signers == prev.signers);
    }

    /// Performs pending `action_id` once the signers that are board members now
    /// reach its quorum snapshot. `failed` lists the actions whose outside effect the
    /// host reported as failed. Fails with `Unauthorized` unless the caller is a
    /// board member or a proposer, `ActionNotFound`, `ActionNotPending`,
    /// `QuorumNotReached`, or the failure of the effect; a failed call changes
    /// nothing, so the action stays pending and can be performed later.
    pub fn perform_action(&mut self, caller: &Address, action_id: ActionId, failed: &Vec<ActionId>) -> (r: Result<
        (),
        MultisigError,
    >)
        requires
            old(self).wf(),
            old(self).has_room_for(1),
        ensures
            final(self).wf(),
            match old(self)@.perform_result(*caller, action_id, failed@) {
                Ok(w) => r is Ok && final(self)@ == w,
                Err(e) => r == Err::<(), MultisigError>(e) && final(self)@ == old(self)@,
            },
    {
        if !self.user_role(caller).can_propose() {
            return Err(MultisigError::Unauthorized);
        }
        if action_id < 1 || action_id > self.action_statuses.len() {
            return Err(MultisigError::ActionNotFound);
        }
        if self.action_statuses[action_id - 1] != ActionStatus::Pending {
            return Err(MultisigError::ActionNotPending);
        }
        self.perform_pending(action_id, failed)
    }

    fn perform_pending(&mut self, action_id: ActionId, failed: &Vec<ActionId>) -> (r: Result<(), MultisigError>)
        requires
            old(self).wf(),
            old(self).has_room_for(1),
            old(self)@.action_exists(action_id),
        ensures
            final(self).wf(),
            match old(self)@.perform_pending(action_id, failed@) {
                Ok(w) => r is Ok && final(self)@ == w,
                Err(e) => r == Err::<(), MultisigError>(e) && final(self)@ == old(self)@,
            },
    {
        if !self.quorum_reached(action_id) {
            return Err(MultisigError::QuorumNotReached);
        }
        match self.apply_effect(action_id, failed) {
            Ok(()) => {},
            Err(e) => return Err(e),
        }
        self.set_action_status(action_id, ActionStatus::Performed);
        Ok(())
    }

    /// Performs every action of group `group_id` that is still pending, in
    /// ascending id order, and marks the group `Performed`. The batch is atomic: on
    /// the first failure nothing of the call remains and every action keeps its
    /// status. Fails with `Unauthorized` unless the caller is a board member or a
    /// proposer, `GroupNotFound`, `ActionNotPending` for a group that is no longer
    /// pending, or the failure of one of the actions.
    pub fn perform_batch(&mut self, caller: &Address, group_id: GroupId, failed: &Vec<ActionId>) -> (r: Result<
        (),
        MultisigError,
    >)
        requires
            old(self).wf(),
            old(self)@.group_exists(group_id) ==> old(self).has_room_for(old(self)@.groups[group_id - 1].len()),
        ensures
            final(self).wf(),
            match old(self)@.perform_batch_result(*caller, group_id, failed@) {
                Ok(w) => r is Ok && final(self)@ == w,
                Err(e) => r == Err::<(), MultisigError>(e) && final(self)@ == old(self)@,
            },
    {
        if !self.user_role(caller).can_propose() {
            return Err(MultisigError::Unauthorized);
        }
        if group_id < 1 || group_id > self.action_groups.len() {
            return Err(MultisigError::GroupNotFound);
        }
        if self.action_group_statuses[group_id - 1] != ActionStatus::Pending {
            return Err(MultisigError::ActionNotPending);
        }
        let ghost prev = self@;
        let members = crate::state::copy_vec(&self.action_groups[group_id - 1]);
        assert(members@ == prev.groups[group_id - 1]);
        let snap = self.take_snapshot();
        proof {
            lemma_grew_from_refl(prev);
            assert(members@.subrange(0, members@.len() as int) =~= members@);
        }
        let mut i: usize = 0;
        while i < members.len()
            invariant
                self.wf(),
                i <= members@.len(),
                members@ == prev.groups[group_id - 1],
                1 <= group_id <= prev.groups.len(),
                grew_from(self@, prev),
                self@.users.len() <= prev.users.len() + i,
                prev.users.len() + members@.len() + 1 < u64::MAX,
                self@.group_statuses == prev.group_statuses,
                prev.perform_ids(members@, failed@) == self@.perform_ids(
                    members@.subrange(i as int, members@.len() as int),
                    failed@,
                ),
                prev.roles.len() == prev.users.len() + 1,
                prev.nonces.len() == prev.users.len() + 1,
                prev.roles[0] == UserRole::Unassigned,
                prev.num_board_members() <= MAX_BOARD_MEMBERS,
                prev == old(self)@,
                prev.role_of_address(*caller).spec_can_propose(),
                prev.group_statuses[group_id - 1] == ActionStatus::Pending,
                forall|k: int|
                    0 <= k < prev.signers.len() ==> crate::state::signers_well_formed(
                        #[trigger] prev.signers[k],
                        prev.users.len(),
                    ),
                snap.num_users == prev.users.len(),
                snap.roles@ == prev.roles,
                snap.quorum == prev.quorum,
                snap.num_board_members == prev.num_board_members(),
                snap.num_proposers == prev.num_proposers(),
                snap.statuses@ == prev.statuses,
                snap.group_statuses@ == prev.group_statuses,
            decreases members@.len() - i,
        {
            let ghost cur = self@;
            let id = members[i];
            let ghost rest = members@.subrange(i as int, members@.len() as int);
            assert(rest[0] == id);
            assert(rest.drop_first() =~= members@.subrange(i + 1, members@.len() as int));
            assert(1 <= id <= self@.action_data.len());
            if self.action_statuses[id - 1] == ActionStatus::Pending {
                match self.perform_pending(id, failed) {
                    Ok(()) => {
                        proof {
                            lemma_effect_grows(cur, prev, id, failed@);
                            let w = cur.effect(id, failed@)->Ok_0;
                            assert(self@.users == w.users);
                        }
                    },
                    Err(e) => {
                        assert(cur.perform_ids(rest, failed@) == Err::<MultisigView, MultisigError>(e));
                        self.restore(snap, Ghost(prev));
                        return Err(e);
                    },
                }
            }
            i = i + 1;
        }
        assert(members@.subrange(i as int, members@.len() as int) =~= Seq::<ActionId>::empty());
        let ghost done = self@;
        self.action_group_statuses.set(group_id - 1, ActionStatus::Performed);
        assert(self@.groups == done.groups);
        assert(self@.signers == done.signers);
        Ok(())
    }
}

/// Whether `id` occurs in `ids`.
fn contains_action(ids: &Vec<ActionId>, id: ActionId) -> (r: bool)
    ensures
        r == ids@.contains(id),
{
    let mut i: usize = 0;
    while i < ids.len()
        invariant
            i <= ids@.len(),
            forall|k: int| 0 <= k < i ==> ids@[k] != id,
        decreases ids@.len() - i,
    {
        if ids[i] == id {
            assert(ids@[i as int] == id);
            return true;
        }
        i = i + 1;
    }
    false
}

} // verus!

verus! {

impl MultisigView {
    /// The outcome of `sign_and_perform`: the signed state and `false` where the
    /// quorum is still not reached, else the performed state and `true`.
    pub open spec fn sign_and_perform_result(self, caller: Address, id: ActionId, failed: Seq<ActionId>) -> Result<
        (MultisigView, bool),
        MultisigError,
    > {
        match self.sign_result(caller, id) {
            Err(e) => Err(e),
            Ok(s) => if !s.spec_quorum_reached(id) {
                Ok((s, false))
            } else {
                match s.perform_pending(id, failed) {
                    Ok(w) => Ok((w, true)),
                    Err(e) => Err(e),
                }
            },
        }
    }

    /// Whether every pending action of group `g` has reached its quorum.
    pub open spec fn group_quorum_reached(self, g: GroupId) -> bool {
        forall|i: int|
            0 <= i < self.statuses.len() && #[trigger] self.pending_in_group(g, i) ==> self.spec_quorum_reached(
                (i + 1) as ActionId,
            )
    }

    /// The outcome of `sign_batch_and_perform`: the signed state and `false` where
    /// some pending action of the group still lacks its quorum, else the outcome of
    /// performing the group, and `true`.
    pub open spec fn sign_batch_and_perform_result(
        self,
        caller: Address,
        g: GroupId,
        failed: Seq<ActionId>,
    ) -> Result<(MultisigView, bool), MultisigError> {
        match self.sign_batch_result(caller, g) {
            Err(e) => Err(e),
            Ok(s) => if !s.group_quorum_reached(g) {
                Ok((s, false))
            } else {
                match s.perform_batch_result(caller, g, failed) {
                    Ok(w) => Ok((w, true)),
                    Err(e) => Err(e),
                }
            },
        }
    }
}

impl StateModule {
    /// Signs `action_id` for the caller and, where that brings the quorum, performs
    /// it in the same call; returns whether it was performed. Where performing
    /// fails, the signature is not kept either.
    pub fn sign_and_perform(&mut self, caller: &Address, action_id: ActionId, failed: &Vec<ActionId>) -> (r: Result<
        bool,
        MultisigError,
    >)
        requires
            old(self).wf(),
            old(self).has_room_for(1),
        ensures
            final(self).wf(),
            match old(self)@.sign_and_perform_result(*caller, action_id, failed@) {
                Ok((w, performed)) => r == Ok::<bool, MultisigError>(performed) && final(self)@ == w,
                Err(e) => r == Err::<bool, MultisigError>(e) && final(self)@ == old(self)@,
            },
    {
        let ghost prev = self@;
        let saved = if action_id >= 1 && action_id <= self.action_signer_ids.len() {
            crate::state::copy_vec(&self.action_signer_ids[action_id - 1])
        } else {
            Vec::new()
        };
        match self.sign(caller, action_id) {
            Ok(()) => {},
            Err(e) => return Err(e),
        }
        if !self.quorum_reached(action_id) {
            return Ok(false);
        }
        match self.perform_pending(action_id, failed) {
            Ok(()) => Ok(true),
            Err(e) => {
                self.set_signers(action_id, saved);
                assert(self@.signers =~= prev.signers);
                Err(e)
            },
        }
    }

    /// Signs every pending action of group `group_id` for the caller and, where
    /// each of them then has its quorum, performs the group in the same call;
    /// returns whether it was performed. Where performing fails, the signatures
    /// are not kept either.
    pub fn sign_batch_and_perform(&mut self, caller: &Address, group_id: GroupId, failed: &Vec<ActionId>) -> (r: Result<
        bool,
        MultisigError,
    >)
        requires
            old(self).wf(),
            old(self)@.group_exists(group_id) ==> old(self).has_room_for(old(self)@.groups[group_id - 1].len()),
        ensures
            final(self).wf(),
            match old(self)@.sign_batch_and_perform_result(*caller, group_id, failed@) {
                Ok((w, performed)) => r == Ok::<bool, MultisigError>(performed) && final(self)@ == w,
                Err(e) => r == Err::<bool, MultisigError>(e) && final(self)@ == old(self)@,
            },
    {
        let ghost prev = self@;
        let saved = self.copy_signer_lists();
        match self.sign_batch(caller, group_id) {
            Ok(()) => {},
            Err(e) => return Err(e),
        }
        if !self.group_quorum_reached(group_id) {
            return Ok(false);
        }
        match self.perform_batch(caller, group_id, failed) {
            Ok(()) => Ok(true),
            Err(e) => {
                assert forall|i: int| 0 <= i < saved@.len() implies crate::state::signers_well_formed(
                    (#[trigger] saved@[i])@,
                    self@.users.len(),
                ) by {
                    assert(saved@.map_values(|v: Vec<AddressId>| v@)[i] == prev.signers[i]);
                }
                self.put_signer_lists(saved);
                assert(self@.signers =~= prev.signers);
                Err(e)
            },
        }
    }

    fn group_quorum_reached(&self, group_id: GroupId) -> (r: bool)
        requires
            self.wf(),
            self@.group_exists(group_id),
        ensures
            r == self@.group_quorum_reached(group_id),
    {
        let members = &self.action_groups[group_id - 1];
        assert(members@ == self@.groups[group_id - 1]);
        let mut j: usize = 0;
        while j < members.len()
            invariant
                self.wf(),
                1 <= group_id <= self@.groups.len(),
                members@ == self@.groups[group_id - 1],
                j <= members@.len(),
                forall|k: int|
                    0 <= k < j && self@.statuses[members@[k] - 1] == ActionStatus::Pending
                        ==> self@.spec_quorum_reached(#[trigger] members@[k]),
            decreases members@.len() - j,
        {
            let m = members[j];
            assert(m == self@.groups[group_id - 1][j as int]);
            if self.action_statuses[m - 1] == ActionStatus::Pending && !self.quorum_reached(m) {
                assert(self@.pending_in_group(group_id, m - 1)) by {
                    assert(members@[j as int] == m);
                }
                assert(!self@.spec_quorum_reached(((m - 1) + 1) as ActionId));
                return false;
            }
            j = j + 1;
        }
        assert forall|i: int|
            0 <= i < self@.statuses.len() && #[trigger] self@.pending_in_group(group_id, i) implies self@.spec_quorum_reached(
            (i + 1) as ActionId,
        ) by {
            let k = choose|k: int| 0 <= k < members@.len() && members@[k] == i + 1;
            assert(self@.spec_quorum_reached(members@[k]));
        }
        true
    }

    fn copy_signer_lists(&self) -> (r: Vec<Vec<AddressId>>)
        ensures
            r@.map_values(|v: Vec<AddressId>| v@) == self@.signers,
    {
        let mut out: Vec<Vec<AddressId>> = Vec::new();
        let mut i: usize = 0;
        while i < self.action_signer_ids.len()
            invariant
                i <= self@.signers.len(),
                out@.len() == i,
                forall|k: int| 0 <= k < i ==> (#[trigger] out@[k])@ == self@.signers[k],
            decreases self@.signers.len() - i,
        {
            out.push(crate::state::copy_vec(&self.action_signer_ids[i]));
            i = i + 1;
        }
        assert(out@.map_values(|v: Vec<AddressId>| v@) =~= self@.signers);
        out
    }

    fn put_signer_lists(&mut self, lists: Vec<Vec<AddressId>>)
        requires
            old(self).wf(),
            lists@.len() == old(self)@.signers.len(),
            forall|i: int|
                0 <= i < lists@.len() ==> crate::state::signers_well_formed(
                    (#[trigger] lists@[i])@,
                    old(self)@.users.len(),
                ),
        ensures
            final(self).wf(),
            final(self)@ == (MultisigView { signers: lists@.map_values(|v: Vec<AddressId>| v@), ..old(self)@ }),
    {
        let ghost prev = self@;
        self.action_signer_ids = lists;
        assert(self@.groups == prev.groups);
        assert forall|i: int| 0 <= i < self@.signers.len() implies crate::state::signers_well_formed(
            #[trigger] self@.signers[i],
            self@.users.len(),
        ) by {
            assert(self@.signers[i] == lists@[i]@);
        }
    }
}

} // verus!
