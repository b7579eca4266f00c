use vstd::prelude::*;

use crate::action::{Action, CallActionData, DeployData, TokenCallActionData, UpgradeData};
use crate::state::{MultisigView, StateModule};
use crate::types::{
    ActionId, ActionStatus, Address, AddressId, GroupId, MultisigError,
};

verus! {

impl MultisigView {
    /// The state after `action` is appended to the log as proposed by `proposer_id`,
    /// pending, with the current quorum as its snapshot. A proposer who may sign
    /// is recorded as its first signer.
    pub open spec fn with_action(
        self,
        proposer_id: AddressId,
        signs: bool,
        action: Action,
        group: GroupId,
    ) -> MultisigView {
        MultisigView {
            action_data: self.action_data.push(action),
            proposers: self.proposers.push(proposer_id),
            statuses: self.statuses.push(ActionStatus::Pending),
            action_quorums: self.action_quorums.push(self.quorum),
            action_groups: self.action_groups.push(group),
            signers: self.signers.push(
                if signs {
                    seq![proposer_id]
                } else {
                    Seq::empty()
                },
            ),
            ..self
        }
    }

    /// The state after each of `actions`, in order, is appended with `with_action`.
    pub open spec fn with_actions(
        self,
        proposer_id: AddressId,
        signs: bool,
        actions: Seq<Action>,
        group: GroupId,
    ) -> MultisigView
        decreases actions.len(),
    {
        if actions.len() == 0 {
            self
        } else {
            self.with_actions(proposer_id, signs, actions.drop_last(), group).with_action(
                proposer_id,
                signs,
                actions.last(),
                group,
            )
        }
    }

    /// The outcome of `propose_action`.
    pub open spec fn propose_result(self, caller: Address, action: Action) -> Result<
        MultisigView,
        MultisigError,
    > {
        let role = self.role_of_address(caller);
        if !role.spec_can_propose() {
            Err(MultisigError::Unauthorized)
        } else {
            Ok(self.with_action(self.user_id(caller) as AddressId, role.spec_can_sign(), action, 0))
        }
    }

    /// The outcome of `propose_batch`: all actions appended under one new group,
    /// whose members are the new ids in ascending order.
    pub open spec fn propose_batch_result(self, caller: Address, actions: Seq<Action>) -> Result<
        MultisigView,
        MultisigError,
    > {
        let role = self.role_of_address(caller);
        if !role.spec_can_propose() {
            Err(MultisigError::Unauthorized)
        } else {
            let g = (self.groups.len() + 1) as GroupId;
            let n = self.action_data.len();
            let w = self.with_actions(self.user_id(caller) as AddressId, role.spec_can_sign(), actions, g);
            Ok(
                MultisigView {
                    groups: w.groups.push(Seq::new(actions.len(), |k: int| (n + 1 + k) as ActionId)),
                    group_statuses: w.group_statuses.push(ActionStatus::Pending),
                    ..w
                },
            )
        }
    }
}

impl StateModule {
    /// Whether `k` more actions can be given ids.
    pub open spec fn has_room_for_actions(&self, k: nat) -> bool {
        self@.action_data.len() + k + 1 < usize::MAX
    }

    fn push_action(&mut self, proposer_id: AddressId, signs: bool, action: Action, group: GroupId) -> (r: ActionId)
        requires
            old(self).wf(),
            1 <= proposer_id <= old(self)@.users.len(),
            old(self).has_room_for_actions(1),
        ensures
            final(self).wf(),
            final(self)@ == old(self)@.with_action(proposer_id, signs, action, group),
            r == final(self)@.action_data.len(),
    {
        let ghost prev = self@;
        let mut signers: Vec<AddressId> = Vec::new();
        if signs {
            signers.push(proposer_id);
        }
        let ghost sv = signers@;
        self.action_data.push(action);
        self.action_proposers.push(proposer_id);
        self.action_statuses.push(ActionStatus::Pending);
        self.quorum_for_action.push(self.quorum);
        self.group_for_action.push(group);
        self.action_signer_ids.push(signers);
        proof {
            assert(sv =~= if signs { seq![proposer_id] } else { Seq::<AddressId>::empty() });
            assert(self@.signers =~= prev.signers.push(sv));
            assert(self@ == prev.with_action(proposer_id, signs, action, group));
        }
        self.action_data.len()
    }

    /// Appends `action` to the log, pending, with the current quorum as its
    /// snapshot, and returns its id. A board member who proposes signs at once.
    /// Fails with `Unauthorized` unless the caller is a board member or a proposer.
    pub fn propose_action(&mut self, caller: &Address, action: Action) -> (r: Result<ActionId, MultisigError>)
        requires
            old(self).wf(),
            old(self).has_room_for_actions(1),
        ensures
            final(self).wf(),
            match old(self)@.propose_result(*caller, action) {
                Ok(w) => r == Ok::<ActionId, MultisigError>((old(self)@.action_data.len() + 1) as ActionId)
                    && final(self)@ == w,
                Err(e) => r == Err::<ActionId, MultisigError>(e) && final(self)@ == old(self)@,
            },
    {
        let (caller_id, caller_role) = self.get_caller_id_and_role(caller);
        if !caller_role.can_propose() {
            return Err(MultisigError::Unauthorized);
        }
        proof {
            crate::identity::lemma_id_of_bounds(self@.users, *caller);
        }
        let signs = caller_role.can_sign();
        Ok(self.push_action(caller_id, signs, action, 0))
    }

    /// Proposes all of `actions` as one group: one new group id, and new action ids
    /// that follow each other, in the order given. Returns the group id. Fails with
    /// `Unauthorized` unless the caller is a board member or a proposer.
    pub fn propose_batch(&mut self, caller: &Address, actions: Vec<Action>) -> (r: Result<GroupId, MultisigError>)
        requires
            old(self).wf(),
            old(self).has_room_for_actions(actions@.len()),
            old(self)@.groups.len() + 1 < usize::MAX,
        ensures
            final(self).wf(),
            match old(self)@.propose_batch_result(*caller, actions@) {
                Ok(w) => r == Ok::<GroupId, MultisigError>((old(self)@.groups.len() + 1) as GroupId)
                    && final(self)@ == w,
                Err(e) => r == Err::<GroupId, MultisigError>(e) && final(self)@ == old(self)@,
            },
    {
        let (caller_id, caller_role) = self.get_caller_id_and_role(caller);
        if !caller_role.can_propose() {
            return Err(MultisigError::Unauthorized);
        }
        proof {
            crate::identity::lemma_id_of_bounds(self@.users, *caller);
        }
        let signs = caller_role.can_sign();
        let ghost prev = self@;
        let ghost all = actions@;
        let group_id = self.action_groups.len() + 1;
        let first = self.action_data.len() + 1;
        let mut rest = actions;
        let mut ids: Vec<ActionId> = Vec::new();
        let mut i: usize = 0;
        while rest.len() > 0
            invariant
                self.wf(),
                1 <= caller_id <= self@.users.len(),
                self@.users == prev.users,
                self@.groups == prev.groups,
                self@.group_statuses == prev.group_statuses,
                first == prev.action_data.len() + 1,
                group_id == prev.groups.len() + 1,
                i <= all.len(),
                rest@ == all.subrange(i as int, all.len() as int),
                self@ == prev.with_actions(caller_id, signs, all.subrange(0, i as int), group_id),
                self@.action_data.len() == prev.action_data.len() + i,
                prev.action_data.len() + all.len() + 1 < usize::MAX,
                ids@ == Seq::new(i as nat, |k: int| (first + k) as ActionId),
            decreases rest@.len(),
        {
            let a = rest.remove(0);
            let id = self.push_action(caller_id, signs, a, group_id);
            ids.push(id);
            i = i + 1;
            proof {
                assert(all.subrange(0, i as int).drop_last() =~= all.subrange(0, i - 1));
                assert(rest@ =~= all.subrange(i as int, all.len() as int));
                assert(ids@ =~= Seq::new(i as nat, |k: int| (first + k) as ActionId));
            }
        }
        let ghost w = self@;
        let ghost ids_view = ids@;
        self.action_groups.push(ids);
        self.action_group_statuses.push(ActionStatus::Pending);
        proof {
            assert(all.subrange(0, i as int) =~= all);
            assert(self@.groups =~= w.groups.push(ids_view));
            assert(ids_view =~= Seq::new(all.len(), |k: int| (prev.action_data.len() + 1 + k) as ActionId));
            assert forall|g: int, k: int|
                0 <= g < self@.groups.len() && 0 <= k < self@.groups[g].len() implies 1 <= #[trigger] self@.groups[g][k]
                    <= self@.action_data.len() by {
                if g < w.groups.len() {
                    assert(self@.groups[g] == w.groups[g]);
                }
            }
        }
        Ok(group_id)
    }

    /// Proposes to make `board_member_address` a board member. Behaves as `propose_action`.
    pub fn propose_add_board_member(&mut self, caller: &Address, board_member_address: Address) -> (r: Result<ActionId, MultisigError>)
        requires
            old(self).wf(),
            old(self).has_room_for_actions(1),
        ensures
            final(self).wf(),
            match old(self)@.propose_result(*caller, Action::AddBoardMember(board_member_address)) {
                Ok(w) => r == Ok::<ActionId, MultisigError>((old(self)@.action_data.len() + 1) as ActionId)
                    && final(self)@ == w,
                Err(e) => r == Err::<ActionId, MultisigError>(e) && final(self)@ == old(self)@,
            },
    {
        self.propose_action(caller, Action::AddBoardMember(board_member_address))
    }

    /// Proposes to make `proposer_address` a proposer. Behaves as `propose_action`.
    pub fn propose_add_proposer(&mut self, caller: &Address, proposer_address: Address) -> (r: Result<ActionId, MultisigError>)
        requires
            old(self).wf(),
            old(self).has_room_for_actions(1),
        ensures
            final(self).wf(),
            match old(self)@.propose_result(*caller, Action::AddProposer(proposer_address)) {
                Ok(w) => r == Ok::<ActionId, MultisigError>((old(self)@.action_data.len() + 1) as ActionId)
                    && final(self)@ == w,
                Err(e) => r == Err::<ActionId, MultisigError>(e) && final(self)@ == old(self)@,
            },
    {
        self.propose_action(caller, Action::AddProposer(proposer_address))
    }

    /// Proposes to take every role from `user_address`. Behaves as `propose_action`.
    pub fn propose_remove_user(&mut self, caller: &Address, user_address: Address) -> (r: Result<ActionId, MultisigError>)
        requires
            old(self).wf(),
            old(self).has_room_for_actions(1),
        ensures
            final(self).wf(),
            match old(self)@.propose_result(*caller, Action::RemoveUser(user_address)) {
                Ok(w) => r == Ok::<ActionId, MultisigError>((old(self)@.action_data.len() + 1) as ActionId)
                    && final(self)@ == w,
                Err(e) => r == Err::<ActionId, MultisigError>(e) && final(self)@ == old(self)@,
            },
    {
        self.propose_action(caller, Action::RemoveUser(user_address))
    }

    /// Proposes to set the quorum to `new_quorum`. Behaves as `propose_action`.
    pub fn propose_change_quorum(&mut self, caller: &Address, new_quorum: usize) -> (r: Result<ActionId, MultisigError>)
        requires
            old(self).wf(),
            old(self).has_room_for_actions(1),
        ensures
            final(self).wf(),
            match old(self)@.propose_result(*caller, Action::ChangeQuorum(new_quorum)) {
                Ok(w) => r == Ok::<ActionId, MultisigError>((old(self)@.action_data.len() + 1) as ActionId)
                    && final(self)@ == w,
                Err(e) => r == Err::<ActionId, MultisigError>(e) && final(self)@ == old(self)@,
            },
    {
        self.propose_action(caller, Action::ChangeQuorum(new_quorum))
    }

    /// Proposes a call that carries the native coin. Behaves as `propose_action`.
    pub fn propose_transfer_execute(&mut self, caller: &Address, data: CallActionData) -> (r: Result<ActionId, MultisigError>)
        requires
            old(self).wf(),
            old(self).has_room_for_actions(1),
        ensures
            final(self).wf(),
            match old(self)@.propose_result(*caller, Action::TransferExecute(data)) {
                Ok(w) => r == Ok::<ActionId, MultisigError>((old(self)@.action_data.len() + 1) as ActionId)
                    && final(self)@ == w,
                Err(e) => r == Err::<ActionId, MultisigError>(e) && final(self)@ == old(self)@,
            },
    {
        self.propose_action(caller, Action::TransferExecute(data))
    }

    /// Proposes a call that carries tokens. Behaves as `propose_action`.
    pub fn propose_transfer_execute_esdt(&mut self, caller: &Address, data: TokenCallActionData) -> (r: Result<ActionId, MultisigError>)
        requires
            old(self).wf(),
            old(self).has_room_for_actions(1),
        ensures
            final(self).wf(),
            match old(self)@.propose_result(*caller, Action::TransferExecuteWithToken(data)) {
                Ok(w) => r == Ok::<ActionId, MultisigError>((old(self)@.action_data.len() + 1) as ActionId)
                    && final(self)@ == w,
                Err(e) => r == Err::<ActionId, MultisigError>(e) && final(self)@ == old(self)@,
            },
    {
        self.propose_action(caller, Action::TransferExecuteWithToken(data))
    }

    /// Proposes an asynchronous call. Behaves as `propose_action`.
    pub fn propose_async_call(&mut self, caller: &Address, data: CallActionData) -> (r: Result<ActionId, MultisigError>)
        requires
            old(self).wf(),
            old(self).has_room_for_actions(1),
        ensures
            final(self).wf(),
            match old(self)@.propose_result(*caller, Action::AsyncCall(data)) {
                Ok(w) => r == Ok::<ActionId, MultisigError>((old(self)@.action_data.len() + 1) as ActionId)
                    && final(self)@ == w,
                Err(e) => r == Err::<ActionId, MultisigError>(e) && final(self)@ == old(self)@,
            },
    {
        self.propose_action(caller, Action::AsyncCall(data))
    }

    /// Proposes to deploy a contract with the code of a template. Behaves as `propose_action`.
    pub fn propose_sc_deploy_from_source(&mut self, caller: &Address, data: DeployData) -> (r: Result<ActionId, MultisigError>)
        requires
            old(self).wf(),
            old(self).has_room_for_actions(1),
        ensures
            final(self).wf(),
            match old(self)@.propose_result(*caller, Action::DeployFromTemplate(data)) {
                Ok(w) => r == Ok::<ActionId, MultisigError>((old(self)@.action_data.len() + 1) as ActionId)
                    && final(self)@ == w,
                Err(e) => r == Err::<ActionId, MultisigError>(e) && final(self)@ == old(self)@,
            },
    {
        self.propose_action(caller, Action::DeployFromTemplate(data))
    }

    /// Proposes to upgrade a contract to the code of a template. Behaves as `propose_action`.
    pub fn propose_sc_upgrade_from_source(&mut self, caller: &Address, data: UpgradeData) -> (r: Result<ActionId, MultisigError>)
        requires
            old(self).wf(),
            old(self).has_room_for_actions(1),
        ensures
            final(self).wf(),
            match old(self)@.propose_result(*caller, Action::UpgradeFromTemplate(data)) {
                Ok(w) => r == Ok::<ActionId, MultisigError>((old(self)@.action_data.len() + 1) as ActionId)
                    && final(self)@ == w,
                Err(e) => r == Err::<ActionId, MultisigError>(e) && final(self)@ == old(self)@,
            },
    {
        self.propose_action(caller, Action::UpgradeFromTemplate(data))
    }
}

} // verus!
