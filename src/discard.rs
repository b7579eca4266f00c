use vstd::prelude::*;

use crate::sign::{lemma_occurs_prefix, occurs};
use crate::state::{copy_vec, MultisigView, StateModule};
use crate::types::{ActionId, ActionStatus, Address, AddressId, GroupId, MultisigError, UserRole};

verus! {

impl MultisigView {
    /// Whether `caller` may discard action `id`: its proposer may, and so may any
    /// board member once the board is too small to ever reach the action's quorum.
    pub open spec fn may_discard(self, caller: Address, id: ActionId) -> bool {
        let cid = self.user_id(caller);
        ||| cid != 0 && self.proposers[id - 1] == cid
        ||| self.role_of_address(caller) is BoardMember && self.num_board_members()
            < self.action_quorums[id - 1]
    }

    /// The outcome of `discard_action`.
    pub open spec fn discard_result(self, caller: Address, id: ActionId) -> Result<MultisigView, MultisigError> {
        if !self.action_exists(id) {
            Err(MultisigError::ActionNotFound)
        } else if self.statuses[id - 1] != ActionStatus::Pending {
            Err(MultisigError::AlreadyFinalized)
        } else if !self.may_discard(caller, id) {
            Err(MultisigError::Unauthorized)
        } else {
            Ok(MultisigView { statuses: self.statuses.update(id - 1, ActionStatus::Discarded), ..self })
        }
    }

    /// The outcome of `discard_batch`: every pending action of the group and the
    /// group itself become `Discarded`, where the caller may discard each of them.
    pub open spec fn discard_batch_result(self, caller: Address, g: GroupId) -> Result<MultisigView, MultisigError> {
        match self.group_check(g) {
            Some(e) => Err(e),
            None => if !(forall|i: int|
                0 <= i < self.statuses.len() && #[trigger] self.pending_in_group(g, i) ==> self.may_discard(
                    caller,
                    (i + 1) as ActionId,
                )) {
                Err(MultisigError::Unauthorized)
            } else {
                Ok(
                    MultisigView {
                        statuses: Seq::new(
                            self.statuses.len(),
                            |i: int|
                                if self.pending_in_group(g, i) {
                                    ActionStatus::Discarded
                                } else {
                                    self.statuses[i]
                                },
                        ),
                        group_statuses: self.group_statuses.update(g - 1, ActionStatus::Discarded),
                        ..self
                    },
                )
            },
        }
    }
}

impl StateModule {
    fn may_discard(&self, caller_id: AddressId, caller_role: UserRole, action_id: ActionId) -> (r: bool)
        requires
            self.wf(),
            self@.action_exists(action_id),
        ensures
            forall|c: Address|
                self@.user_id(c) == caller_id && self@.role_of_address(c) == caller_role ==> r
                    == #[trigger] self@.may_discard(c, action_id),
    {
        (caller_id != 0 && self.action_proposers[action_id - 1] == caller_id) || (caller_role.can_sign()
            && self.num_board_members < self.quorum_for_action[action_id - 1])
    }

    /// Marks pending `action_id` as `Discarded`. Its proposer may discard it, and
    /// so may any board member once the board is smaller than the action's quorum.
    /// Fails with `ActionNotFound`, with `AlreadyFinalized` for an action that is
    /// no longer pending, and with `Unauthorized`.
    pub fn discard_action(&mut self, caller: &Address, action_id: ActionId) -> (r: Result<(), MultisigError>)
        requires
            old(self).wf(),
        ensures
            final(self).wf(),
            match old(self)@.discard_result(*caller, action_id) {
                Ok(w) => r is Ok && final(self)@ == w,
                Err(e) => r == Err::<(), MultisigError>(e) && final(self)@ == old(self)@,
            },
    {
        if action_id < 1 || action_id > self.action_statuses.len() {
            return Err(MultisigError::ActionNotFound);
        }
        if self.action_statuses[action_id - 1] != ActionStatus::Pending {
            return Err(MultisigError::AlreadyFinalized);
        }
        let (caller_id, caller_role) = self.get_caller_id_and_role(caller);
        if !self.may_discard(caller_id, caller_role, action_id) {
            return Err(MultisigError::Unauthorized);
        }
        let ghost prev = self@;
        self.action_statuses.set(action_id - 1, ActionStatus::Discarded);
        assert(self@.groups == prev.groups);
        assert(self@.signers == prev.signers);
        Ok(())
    }

    /// Discards every pending action of group `group_id` and the group itself, all
    /// or nothing. Fails with `GroupNotFound`, `AlreadyFinalized` for a group that
    /// is no longer pending, or `Unauthorized` where the caller may not discard one
    /// of the pending actions.
    pub fn discard_batch(&mut self, caller: &Address, group_id: GroupId) -> (r: Result<(), MultisigError>)
        requires
            old(self).wf(),
        ensures
            final(self).wf(),
            match old(self)@.discard_batch_result(*caller, group_id) {
                Ok(w) => r is Ok && final(self)@ == w,
                Err(e) => r == Err::<(), MultisigError>(e) && final(self)@ == old(self)@,
            },
    {
        if group_id < 1 || group_id > self.action_groups.len() {
            return Err(MultisigError::GroupNotFound);
        }
        if self.action_group_statuses[group_id - 1] != ActionStatus::Pending {
            return Err(MultisigError::AlreadyFinalized);
        }
        let (caller_id, caller_role) = self.get_caller_id_and_role(caller);
        let ghost prev = self@;
        let members = copy_vec(&self.action_groups[group_id - 1]);
        let ghost g = group_id;
        let mut j: usize = 0;
        while j < members.len()
            invariant
                self.wf(),
                self@ == prev,
                prev == old(self)@,
                prev.group_check(group_id) is None,
                1 <= group_id <= prev.groups.len(),
                members@ == prev.groups[group_id - 1],
                caller_id == prev.user_id(*caller),
                caller_role == prev.role_of_address(*caller),
                j <= members@.len(),
                forall|k: int|
                    0 <= k < j && prev.statuses[members@[k] - 1] == ActionStatus::Pending
                        ==> #[trigger] prev.may_discard(*caller, members@[k]),
            decreases members@.len() - j,
        {
            let m = members[j];
            assert(m == self@.groups[group_id - 1][j as int]);
            assert(1 <= m <= prev.action_data.len());
            if self.action_statuses[m - 1] == ActionStatus::Pending {
                if !self.may_discard(caller_id, caller_role, m) {
                    proof {
                        assert(!prev.may_discard(*caller, m));
                        assert(prev.pending_in_group(group_id, m - 1)) by {
                            assert(members@[j as int] == m);
                        }
                        assert(!prev.may_discard(*caller, ((m - 1) + 1) as ActionId));
                    }
                    return Err(MultisigError::Unauthorized);
                }
            }
            j = j + 1;
        }
        assert forall|i: int|
            0 <= i < prev.statuses.len() && #[trigger] prev.pending_in_group(group_id, i) implies prev.may_discard(
            *caller,
            (i + 1) as ActionId,
        ) by {
            let k = choose|k: int| 0 <= k < members@.len() && members@[k] == i + 1;
            assert(prev.statuses[members@[k] - 1] == ActionStatus::Pending);
            assert(prev.may_discard(*caller, members@[k]));
        }
        assert(prev.statuses =~= Seq::new(
            prev.statuses.len(),
            |i: int|
                if occurs(members@.subrange(0, 0), i + 1) && prev.statuses[i] == ActionStatus::Pending {
                    ActionStatus::Discarded
                } else {
                    prev.statuses[i]
                },
        ));
        let mut j: usize = 0;
        while j < members.len()
            invariant
                self.wf(),
                1 <= group_id <= prev.groups.len(),
                members@ == prev.groups[group_id - 1],
                j <= members@.len(),
                self@ == (MultisigView {
                    statuses: Seq::new(
                        prev.statuses.len(),
                        |i: int|
                            if occurs(members@.subrange(0, j as int), i + 1) && prev.statuses[i]
                                == ActionStatus::Pending {
                                ActionStatus::Discarded
                            } else {
                                prev.statuses[i]
                            },
                    ),
                    ..prev
                }),
            decreases members@.len() - j,
        {
            let ghost cur = self@;
            let m = members[j];
            assert(m == self@.groups[group_id - 1][j as int]);
            assert(1 <= m <= prev.action_data.len());
            if self.action_statuses[m - 1] == ActionStatus::Pending {
                self.action_statuses.set(m - 1, ActionStatus::Discarded);
            }
            proof {
                assert(self@.groups == cur.groups);
                assert(self@.signers == cur.signers);
                assert forall|x: int| #[trigger] occurs(members@.subrange(0, j + 1), x) <==> (occurs(
                    members@.subrange(0, j as int),
                    x,
                ) || members@[j as int] == x) by {
                    lemma_occurs_prefix(members@, j as int, x);
                }
                assert(self@.statuses =~= Seq::new(
                    prev.statuses.len(),
                    |i: int|
                        if occurs(members@.subrange(0, j + 1), i + 1) && prev.statuses[i]
                            == ActionStatus::Pending {
                            ActionStatus::Discarded
                        } else {
                            prev.statuses[i]
                        },
                ));
            }
            j = j + 1;
        }
        assert(members@.subrange(0, j as int) =~= members@);
        let ghost done = self@;
        self.action_group_statuses.set(group_id - 1, ActionStatus::Discarded);
        assert(self@.groups == done.groups);
        assert(self@.signers == done.signers);
        assert(self@.statuses =~= prev.discard_batch_result(*caller, group_id)->Ok_0.statuses);
        Ok(())
    }
}

} // verus!
