use vstd::prelude::*;

use crate::action::Action;
use crate::model::{role_of, valid_signer_count};
use crate::state::{addresses_with_role, copy_vec, MultisigView, StateModule};
use crate::types::{
    ActionId, ActionStatus, Address, AddressId, GroupId, MultisigError, Nonce, UserRole,
};

verus! {

impl MultisigView {
    /// The number of signers of action `id` that currently hold the board-member role.
    pub open spec fn valid_count(self, id: ActionId) -> nat {
        valid_signer_count(self.signers[id - 1], self.roles)
    }

    /// Whether action `id` has as many valid signatures as its quorum snapshot asks.
    pub open spec fn spec_quorum_reached(self, id: ActionId) -> bool {
        self.valid_count(id) >= self.action_quorums[id - 1]
    }
}

impl StateModule {
    /// Minimum number of valid signatures that a newly proposed action will need.
    pub fn get_quorum(&self) -> (r: usize)
        ensures
            r == self@.quorum,
    {
        self.quorum
    }

    /// The number of users holding the board-member role.
    pub fn get_num_board_members(&self) -> (r: usize)
        requires
            self.wf(),
        ensures
            r == self@.num_board_members(),
    {
        self.num_board_members
    }

    /// The number of users holding the proposer role.
    pub fn get_num_proposers(&self) -> (r: usize)
        requires
            self.wf(),
        ensures
            r == self@.num_proposers(),
    {
        self.num_proposers
    }

    /// The number of groups proposed so far.
    pub fn get_num_groups(&self) -> (r: usize)
        requires
            self.wf(),
        ensures
            r == self@.groups.len(),
    {
        self.action_groups.len()
    }

    /// The id of the group proposed last; 0 where there is none.
    pub fn get_last_group_action_id(&self) -> (r: GroupId)
        requires
            self.wf(),
        ensures
            r == self@.groups.len(),
    {
        self.action_groups.len()
    }

    /// The id of the action proposed last; 0 where there is none.
    pub fn get_action_last_index(&self) -> (r: ActionId)
        requires
            self.wf(),
        ensures
            r == self@.action_data.len(),
    {
        self.action_data.len()
    }

    /// The role held by `id`; ids that were never handed out hold none.
    pub(crate) fn role_of_id(&self, id: AddressId) -> (r: UserRole)
        requires
            self.wf_core(),
        ensures
            r == role_of(self@.roles, id),
    {
        if id < self.user_roles.len() as u64 {
            self.user_roles[id as usize]
        } else {
            UserRole::Unassigned
        }
    }

    /// The role of `user`; an unknown address holds none.
    pub fn user_role(&self, user: &Address) -> (r: UserRole)
        requires
            self.wf(),
        ensures
            r == self@.role_of_address(*user),
    {
        let id = self.user_ids.get_id(user);
        self.role_of_id(id)
    }

    /// The id and the role of the caller; the unknown id and no role for an
    /// address that was never registered.
    pub fn get_caller_id_and_role(&self, caller: &Address) -> (r: (AddressId, UserRole))
        requires
            self.wf(),
        ensures
            r.0 == self@.user_id(*caller),
            r.1 == self@.role_of_address(*caller),
    {
        let id = self.user_ids.get_id(caller);
        (id, self.role_of_id(id))
    }

    /// The nonce that the next proposal of `user` will use; 0 for an unknown address.
    pub fn get_user_nonce(&self, user: &Address) -> (r: Nonce)
        requires
            self.wf(),
        ensures
            r == self@.nonce_of(*user),
    {
        let id = self.user_ids.get_id(user);
        if id != 0 && id < self.user_nonces.len() as u64 {
            self.user_nonces[id as usize]
        } else {
            0
        }
    }

    /// The number of ids that signed action `action_id`, whether or not they still
    /// hold the board-member role; 0 for an unknown action.
    pub fn get_action_signer_count(&self, action_id: ActionId) -> (r: usize)
        requires
            self.wf(),
        ensures
            self@.action_exists(action_id) ==> r == self@.signers[action_id - 1].len(),
            !self@.action_exists(action_id) ==> r == 0,
    {
        if action_id >= 1 && action_id <= self.action_signer_ids.len() {
            self.action_signer_ids[action_id - 1].len()
        } else {
            0
        }
    }

    /// The number of signers of `action_id` that hold the board-member role now;
    /// 0 for an unknown action. Computed afresh on every call.
    pub fn get_action_valid_signer_count(&self, action_id: ActionId) -> (r: usize)
        requires
            self.wf(),
        ensures
            self@.action_exists(action_id) ==> r == self@.valid_count(action_id),
            !self@.action_exists(action_id) ==> r == 0,
    {
        if action_id < 1 || action_id > self.action_signer_ids.len() {
            return 0;
        }
        let signers = &self.action_signer_ids[action_id - 1];
        assert(signers@ == self@.signers[action_id - 1]);
        let mut count: usize = 0;
        let mut i: usize = 0;
        while i < signers.len()
            invariant
                self.wf(),
                i <= signers@.len(),
                count == valid_signer_count(signers@.subrange(0, i as int), self@.roles),
                count <= i,
            decreases signers@.len() - i,
        {
            let role = self.role_of_id(signers[i]);
            assert(signers@.subrange(0, i + 1).drop_last() =~= signers@.subrange(0, i as int));
            if let UserRole::BoardMember = role {
                count = count + 1;
            }
            i = i + 1;
        }
        assert(signers@.subrange(0, i as int) =~= signers@);
        count
    }

    /// The addresses of all ids that signed `action_id`, in signing order, whether
    /// or not they still hold the board-member role; empty for an unknown action.
    pub fn get_action_signers(&self, action_id: ActionId) -> (r: Vec<Address>)
        requires
            self.wf(),
        ensures
            self@.action_exists(action_id) ==> r@.len() == self@.signers[action_id - 1].len() && (
            forall|k: int|
                0 <= k < r@.len() ==> #[trigger] r@[k] == self@.users[self@.signers[action_id
                    - 1][k] - 1]),
            !self@.action_exists(action_id) ==> r@.len() == 0,
    {
        let mut out: Vec<Address> = Vec::new();
        if action_id < 1 || action_id > self.action_signer_ids.len() {
            return out;
        }
        let signers = &self.action_signer_ids[action_id - 1];
        assert(signers@ == self@.signers[action_id - 1]);
        let mut i: usize = 0;
        while i < signers.len()
            invariant
                self.wf(),
                1 <= action_id <= self@.action_data.len(),
                signers@ == self@.signers[action_id - 1],
                i <= signers@.len(),
                out@.len() == i,
                forall|k: int| 0 <= k < i ==> #[trigger] out@[k] == self@.users[signers@[k] - 1],
            decreases signers@.len() - i,
        {
            let id = signers[i];
            assert(1 <= signers@[i as int] <= self@.users.len());
            let addr = self.user_ids.get_address(id);
            match addr {
                Some(a) => out.push(a),
                None => {
                    assert(false);
                },
            }
            i = i + 1;
        }
        out
    }

    /// Whether `user` signed `action_id`.
    pub fn signed(&self, user: &Address, action_id: ActionId) -> (r: bool)
        requires
            self.wf(),
        ensures
            r == (self@.action_exists(action_id) && self@.user_id(*user) != 0
                && self@.signers[action_id - 1].contains(self@.user_id(*user) as AddressId)),
    {
        let id = self.user_ids.get_id(user);
        if id == 0 || action_id < 1 || action_id > self.action_signer_ids.len() {
            return false;
        }
        let signers = &self.action_signer_ids[action_id - 1];
        assert(signers@ == self@.signers[action_id - 1]);
        let mut i: usize = 0;
        while i < signers.len()
            invariant
                1 <= action_id <= self@.action_data.len(),
                self.wf(),
                signers@ == self@.signers[action_id - 1],
                id == self@.user_id(*user),
                id != 0,
                i <= signers@.len(),
                forall|k: int| 0 <= k < i ==> signers@[k] != id,
            decreases signers@.len() - i,
        {
            if signers[i] == id {
                assert(signers@[i as int] == id);
                return true;
            }
            i = i + 1;
        }
        false
    }

    /// Whether `action_id` exists and has at least as many valid signatures as the
    /// quorum captured when it was proposed.
    pub fn quorum_reached(&self, action_id: ActionId) -> (r: bool)
        requires
            self.wf(),
        ensures
            r == (self@.action_exists(action_id) && self@.spec_quorum_reached(action_id)),
    {
        if action_id < 1 || action_id > self.action_data.len() {
            return false;
        }
        let valid = self.get_action_valid_signer_count(action_id);
        valid >= self.quorum_for_action[action_id - 1]
    }

    /// The payload of `action_id`; fails with `ActionNotFound` for id 0 or beyond
    /// the last action.
    pub fn get_action_data(&self, action_id: ActionId) -> (r: Result<&Action, MultisigError>)
        requires
            self.wf(),
        ensures
            self@.action_exists(action_id) ==> r == Ok::<&Action, MultisigError>(
                &self@.action_data[action_id - 1],
            ),
            !self@.action_exists(action_id) ==> r == Err::<&Action, MultisigError>(
                MultisigError::ActionNotFound,
            ),
    {
        if action_id < 1 || action_id > self.action_data.len() {
            return Err(MultisigError::ActionNotFound);
        }
        Ok(&self.action_data[action_id - 1])
    }

    /// The status of `action_id`; fails with `ActionNotFound` for an unknown action.
    pub fn get_action_status(&self, action_id: ActionId) -> (r: Result<ActionStatus, MultisigError>)
        requires
            self.wf(),
        ensures
            self@.action_exists(action_id) ==> r == Ok::<ActionStatus, MultisigError>(
                self@.statuses[action_id - 1],
            ),
            !self@.action_exists(action_id) ==> r == Err::<ActionStatus, MultisigError>(
                MultisigError::ActionNotFound,
            ),
    {
        if action_id < 1 || action_id > self.action_statuses.len() {
            return Err(MultisigError::ActionNotFound);
        }
        Ok(self.action_statuses[action_id - 1])
    }

    /// The ids of the actions of group `group_id`, in ascending order; fails with
    /// `GroupNotFound` for an unknown group.
    pub fn get_action_group(&self, group_id: GroupId) -> (r: Result<Vec<ActionId>, MultisigError>)
        requires
            self.wf(),
        ensures
            self@.group_exists(group_id) ==> r is Ok && r->Ok_0@ == self@.groups[group_id - 1],
            !self@.group_exists(group_id) ==> r == Err::<Vec<ActionId>, MultisigError>(
                MultisigError::GroupNotFound,
            ),
    {
        if group_id < 1 || group_id > self.action_groups.len() {
            return Err(MultisigError::GroupNotFound);
        }
        Ok(copy_vec(&self.action_groups[group_id - 1]))
    }

    /// The status of group `group_id`; fails with `GroupNotFound` for an unknown group.
    pub fn get_group_status(&self, group_id: GroupId) -> (r: Result<ActionStatus, MultisigError>)
        requires
            self.wf(),
        ensures
            self@.group_exists(group_id) ==> r == Ok::<ActionStatus, MultisigError>(
                self@.group_statuses[group_id - 1],
            ),
            !self@.group_exists(group_id) ==> r == Err::<ActionStatus, MultisigError>(
                MultisigError::GroupNotFound,
            ),
    {
        if group_id < 1 || group_id > self.action_group_statuses.len() {
            return Err(MultisigError::GroupNotFound);
        }
        Ok(self.action_group_statuses[group_id - 1])
    }

    fn get_all_users_with_role(&self, role: UserRole) -> (r: Vec<Address>)
        requires
            self.wf(),
        ensures
            r@ == addresses_with_role(self@.users, self@.roles, role),
    {
        let users = self.user_ids.addresses();
        let mut out: Vec<Address> = Vec::new();
        let mut i: usize = 0;
        while i < users.len()
            invariant
                self.wf(),
                users@ == self@.users,
                i <= users@.len(),
                out@ == addresses_with_role(users@.subrange(0, i as int), self@.roles, role),
            decreases users@.len() - i,
        {
            let r = self.role_of_id((i + 1) as AddressId);
            assert(users@.subrange(0, i + 1).drop_last() =~= users@.subrange(0, i as int));
            if r == role {
                out.push(users[i]);
            }
            i = i + 1;
        }
        assert(users@.subrange(0, i as int) =~= users@);
        out
    }

    /// The addresses of all board members, in order of registration.
    pub fn get_all_board_members(&self) -> (r: Vec<Address>)
        requires
            self.wf(),
        ensures
            r@ == addresses_with_role(self@.users, self@.roles, UserRole::BoardMember),
    {
        self.get_all_users_with_role(UserRole::BoardMember)
    }

    /// The addresses of all proposers, in order of registration.
    pub fn get_all_proposers(&self) -> (r: Vec<Address>)
        requires
            self.wf(),
        ensures
            r@ == addresses_with_role(self@.users, self@.roles, UserRole::Proposer),
    {
        self.get_all_users_with_role(UserRole::Proposer)
    }
}

} // verus!
