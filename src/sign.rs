use vstd::prelude::*;

use crate::model::{
    ids_distinct, add_signer, board_signers, contains_id, drop_id, lemma_add_signer, lemma_board_signers,
    lemma_board_signers_push, lemma_drop_id, without_id,
};
use crate::state::{copy_vec, signers_well_formed, MultisigView, StateModule};
use crate::types::{ActionId, ActionStatus, Address, AddressId, GroupId, MultisigError, UserRole};

verus! {

/// Whether `x` is one of `ids`.
pub open spec fn occurs(ids: Seq<ActionId>, x: int) -> bool {
    exists|k: int| 0 <= k < ids.len() && ids[k] == x
}

pub proof fn lemma_occurs_prefix(s: Seq<ActionId>, j: int, x: int)
    requires
        0 <= j < s.len(),
    ensures
        occurs(s.subrange(0, j + 1), x) <==> (occurs(s.subrange(0, j), x) || s[j] == x),
{
    let a = s.subrange(0, j + 1);
    let b = s.subrange(0, j);
    if occurs(a, x) {
        let k = choose|k: int| 0 <= k < a.len() && a[k] == x;
        if k < j {
            assert(b[k] == x);
        }
    }
    if occurs(b, x) {
        let k = choose|k: int| 0 <= k < b.len() && b[k] == x;
        assert(a[k] == x);
    }
    if s[j] == x {
        assert(a[j] == x);
    }
}

impl MultisigView {
    /// The state with `signers` as the signer list of action `id`.
    pub open spec fn with_signers(self, id: ActionId, signers: Seq<AddressId>) -> MultisigView {
        MultisigView { signers: self.signers.update(id - 1, signers), ..self }
    }

    /// The checks that sign and unsign make before they touch action `id`.
    pub open spec fn signing_check(self, caller: Address, id: ActionId) -> Option<MultisigError> {
        if !self.role_of_address(caller).spec_can_sign() {
            Some(MultisigError::Unauthorized)
        } else if !self.action_exists(id) {
            Some(MultisigError::ActionNotFound)
        } else if self.statuses[id - 1] != ActionStatus::Pending {
            Some(MultisigError::AlreadyFinalized)
        } else {
            None
        }
    }

    /// The outcome of `sign`: the caller's id joins the signers, once.
    pub open spec fn sign_result(self, caller: Address, id: ActionId) -> Result<MultisigView, MultisigError> {
        match self.signing_check(caller, id) {
            Some(e) => Err(e),
            None => Ok(
                self.with_signers(id, add_signer(self.signers[id - 1], self.user_id(caller) as AddressId)),
            ),
        }
    }

    /// The outcome of `unsign`: the caller's id leaves the signers, if it was there.
    pub open spec fn unsign_result(self, caller: Address, id: ActionId) -> Result<MultisigView, MultisigError> {
        match self.signing_check(caller, id) {
            Some(e) => Err(e),
            None => Ok(
                self.with_signers(id, drop_id(self.signers[id - 1], self.user_id(caller) as AddressId)),
            ),
        }
    }

    /// The outcome of `unsign_for_outdated_board_members`: only the signers that
    /// still hold the board-member role stay.
    pub open spec fn unsign_outdated_result(self, id: ActionId) -> Result<MultisigView, MultisigError> {
        if !self.action_exists(id) {
            Err(MultisigError::ActionNotFound)
        } else if self.statuses[id - 1] != ActionStatus::Pending {
            Err(MultisigError::AlreadyFinalized)
        } else {
            Ok(self.with_signers(id, board_signers(self.signers[id - 1], self.roles)))
        }
    }

    /// The checks that the batch operations make before they touch group `g`.
    pub open spec fn group_check(self, g: GroupId) -> Option<MultisigError> {
        if !self.group_exists(g) {
            Some(MultisigError::GroupNotFound)
        } else if self.group_statuses[g - 1] != ActionStatus::Pending {
            Some(MultisigError::AlreadyFinalized)
        } else {
            None
        }
    }

    /// Whether action `i + 1` is a pending member of group `g`.
    pub open spec fn pending_in_group(self, g: GroupId, i: int) -> bool {
        occurs(self.groups[g - 1], i + 1) && self.statuses[i] == ActionStatus::Pending
    }

    /// The outcome of `sign_batch`: the caller signs every pending action of the group.
    pub open spec fn sign_batch_result(self, caller: Address, g: GroupId) -> Result<MultisigView, MultisigError> {
        let cid = self.user_id(caller) as AddressId;
        if !self.role_of_address(caller).spec_can_sign() {
            Err(MultisigError::Unauthorized)
        } else {
            match self.group_check(g) {
                Some(e) => Err(e),
                None => Ok(
                    MultisigView {
                        signers: Seq::new(
                            self.signers.len(),
                            |i: int|
                                if self.pending_in_group(g, i) {
                                    add_signer(self.signers[i], cid)
                                } else {
                                    self.signers[i]
                                },
                        ),
                        ..self
                    },
                ),
            }
        }
    }

    /// The outcome of `unsign_batch`: the caller's signature leaves every pending
    /// action of the group.
    pub open spec fn unsign_batch_result(self, caller: Address, g: GroupId) -> Result<MultisigView, MultisigError> {
        let cid = self.user_id(caller) as AddressId;
        if !self.role_of_address(caller).spec_can_sign() {
            Err(MultisigError::Unauthorized)
        } else {
            match self.group_check(g) {
                Some(e) => Err(e),
                None => Ok(
                    MultisigView {
                        signers: Seq::new(
                            self.signers.len(),
                            |i: int|
                                if self.pending_in_group(g, i) {
                                    drop_id(self.signers[i], cid)
                                } else {
                                    self.signers[i]
                                },
                        ),
                        ..self
                    },
                ),
            }
        }
    }
}

/// A distinct list whose ids come from a well-formed list, or are `extra` where
/// that is a valid id, is well formed.
pub proof fn lemma_subset_well_formed(s: Seq<AddressId>, t: Seq<AddressId>, extra: AddressId, n: nat)
    requires
        signers_well_formed(s, n),
        ids_distinct(t),
        forall|y: AddressId| #[trigger] t.contains(y) ==> s.contains(y) || (y == extra && 1 <= extra <= n),
    ensures
        signers_well_formed(t, n),
{
    assert forall|k: int| 0 <= k < t.len() implies 1 <= #[trigger] t[k] <= n by {
        assert(t.contains(t[k]));
        if s.contains(t[k]) {
            let j = choose|j: int| 0 <= j < s.len() && s[j] == t[k];
            assert(1 <= s[j] <= n);
        }
    }
}

impl StateModule {
    pub(crate) fn set_signers(&mut self, action_id: ActionId, signers: Vec<AddressId>)
        requires
            old(self).wf(),
            1 <= action_id <= old(self)@.signers.len(),
            signers_well_formed(signers@, old(self)@.users.len()),
        ensures
            final(self).wf(),
            final(self)@ == old(self)@.with_signers(action_id, signers@),
    {
        let ghost prev = self@;
        let ghost sv = signers@;
        self.action_signer_ids.set(action_id - 1, signers);
        assert(self@.signers =~= prev.signers.update(action_id - 1, sv));
        assert(self@.groups == prev.groups);
        assert forall|i: int| 0 <= i < self@.signers.len() implies signers_well_formed(
            #[trigger] self@.signers[i],
            self@.users.len(),
        ) by {
            if i != action_id - 1 {
                assert(self@.signers[i] == prev.signers[i]);
            }
        }
    }

    pub(crate) fn add_signature(&mut self, action_id: ActionId, signer: AddressId)
        requires
            old(self).wf(),
            old(self)@.action_exists(action_id),
            1 <= signer <= old(self)@.users.len(),
        ensures
            final(self).wf(),
            final(self)@ == old(self)@.with_signers(action_id, add_signer(old(self)@.signers[action_id - 1], signer)),
    {
        let idx = action_id - 1;
        if !contains_id(&self.action_signer_ids[idx], signer) {
            let mut signers = copy_vec(&self.action_signer_ids[idx]);
            proof {
                lemma_add_signer(signers@, signer);
            }
            signers.push(signer);
            proof {
                lemma_subset_well_formed(self@.signers[idx as int], signers@, signer, self@.users.len());
            }
            self.set_signers(action_id, signers);
        } else {
            assert(self@.signers.update(idx as int, self@.signers[idx as int]) =~= self@.signers);
        }
    }

    pub(crate) fn remove_signature(&mut self, action_id: ActionId, signer: AddressId)
        requires
            old(self).wf(),
            old(self)@.action_exists(action_id),
        ensures
            final(self).wf(),
            final(self)@ == old(self)@.with_signers(action_id, drop_id(old(self)@.signers[action_id - 1], signer)),
    {
        let idx = action_id - 1;
        let signers = without_id(&self.action_signer_ids[idx], signer);
        proof {
            lemma_drop_id(self@.signers[idx as int], signer);
            lemma_subset_well_formed(self@.signers[idx as int], signers@, 0, self@.users.len());
        }
        self.set_signers(action_id, signers);
    }

    fn signing_check(&self, caller: &Address, action_id: ActionId) -> (r: (AddressId, Option<MultisigError>))
        requires
            self.wf(),
        ensures
            r.0 == self@.user_id(*caller),
            r.1 == self@.signing_check(*caller, action_id),
            r.1 is None ==> 1 <= r.0 <= self@.users.len(),
    {
        let (caller_id, caller_role) = self.get_caller_id_and_role(caller);
        proof {
            crate::identity::lemma_id_of_bounds(self@.users, *caller);
        }
        if !caller_role.can_sign() {
            return (caller_id, Some(MultisigError::Unauthorized));
        }
        if action_id < 1 || action_id > self.action_statuses.len() {
            return (caller_id, Some(MultisigError::ActionNotFound));
        }
        if self.action_statuses[action_id - 1] != ActionStatus::Pending {
            return (caller_id, Some(MultisigError::AlreadyFinalized));
        }
        (caller_id, None)
    }

    /// Records the caller's signature on `action_id`; signing twice changes nothing.
    /// Fails with `Unauthorized` unless the caller is a board member, with
    /// `ActionNotFound` for an unknown action and `AlreadyFinalized` for one that is
    /// no longer pending.
    pub fn sign(&mut self, caller: &Address, action_id: ActionId) -> (r: Result<(), MultisigError>)
        requires
            old(self).wf(),
        ensures
            final(self).wf(),
            match old(self)@.sign_result(*caller, action_id) {
                Ok(w) => r is Ok && final(self)@ == w,
                Err(e) => r == Err::<(), MultisigError>(e) && final(self)@ == old(self)@,
            },
    {
        let (caller_id, check) = self.signing_check(caller, action_id);
        if let Some(e) = check {
            return Err(e);
        }
        self.add_signature(action_id, caller_id);
        Ok(())
    }

    /// Removes the caller's signature from `action_id`, where it is there. Fails as
    /// `sign` does.
    pub fn unsign(&mut self, caller: &Address, action_id: ActionId) -> (r: Result<(), MultisigError>)
        requires
            old(self).wf(),
        ensures
            final(self).wf(),
            match old(self)@.unsign_result(*caller, action_id) {
                Ok(w) => r is Ok && final(self)@ == w,
                Err(e) => r == Err::<(), MultisigError>(e) && final(self)@ == old(self)@,
            },
    {
        let (caller_id, check) = self.signing_check(caller, action_id);
        if let Some(e) = check {
            return Err(e);
        }
        self.remove_signature(action_id, caller_id);
        Ok(())
    }

    /// Removes from the signers of `action_id` every id that no longer holds the
    /// board-member role. Anyone may call it; validity is always recomputed, so
    /// this only tidies storage. Fails with `ActionNotFound` for an unknown action
    /// and `AlreadyFinalized` for one that is no longer pending.
    pub fn unsign_for_outdated_board_members(&mut self, action_id: ActionId) -> (r: Result<(), MultisigError>)
        requires
            old(self).wf(),
        ensures
            final(self).wf(),
            match old(self)@.unsign_outdated_result(action_id) {
                Ok(w) => r is Ok && final(self)@ == w,
                Err(e) => r == Err::<(), MultisigError>(e) && final(self)@ == old(self)@,
            },
    {
        if action_id < 1 || action_id > self.action_statuses.len() {
            return Err(MultisigError::ActionNotFound);
        }
        if self.action_statuses[action_id - 1] != ActionStatus::Pending {
            return Err(MultisigError::AlreadyFinalized);
        }
        let idx = action_id - 1;
        let old_signers = &self.action_signer_ids[idx];
        let mut kept: Vec<AddressId> = Vec::new();
        let mut i: usize = 0;
        while i < old_signers.len()
            invariant
                self.wf(),
                i <= old_signers@.len(),
                kept@ == board_signers(old_signers@.subrange(0, i as int), self@.roles),
            decreases old_signers@.len() - i,
        {
            let s = old_signers[i];
            let role = self.role_of_id(s);
            proof {
                assert(old_signers@.subrange(0, i + 1) =~= old_signers@.subrange(0, i as int).push(s));
                lemma_board_signers_push(old_signers@.subrange(0, i as int), s, self@.roles);
            }
            if let UserRole::BoardMember = role {
                kept.push(s);
            }
            i = i + 1;
        }
        proof {
            assert(old_signers@.subrange(0, i as int) =~= old_signers@);
            lemma_board_signers(old_signers@, self@.roles);
            lemma_subset_well_formed(old_signers@, kept@, 1, self@.users.len());
        }
        self.set_signers(action_id, kept);
        Ok(())
    }

    /// Signs, for the caller, every pending action of group `group_id`. Fails with
    /// `Unauthorized` unless the caller is a board member, `GroupNotFound`, or
    /// `AlreadyFinalized` for a group that is no longer pending.
    pub fn sign_batch(&mut self, caller: &Address, group_id: GroupId) -> (r: Result<(), MultisigError>)
        requires
            old(self).wf(),
        ensures
            final(self).wf(),
            match old(self)@.sign_batch_result(*caller, group_id) {
                Ok(w) => r is Ok && final(self)@ == w,
                Err(e) => r == Err::<(), MultisigError>(e) && final(self)@ == old(self)@,
            },
    {
        self.update_batch_signatures(caller, group_id, true)
    }

    /// Removes the caller's signature from every pending action of group
    /// `group_id`. Fails as `sign_batch` does.
    pub fn unsign_batch(&mut self, caller: &Address, group_id: GroupId) -> (r: Result<(), MultisigError>)
        requires
            old(self).wf(),
        ensures
            final(self).wf(),
            match old(self)@.unsign_batch_result(*caller, group_id) {
                Ok(w) => r is Ok && final(self)@ == w,
                Err(e) => r == Err::<(), MultisigError>(e) && final(self)@ == old(self)@,
            },
    {
        self.update_batch_signatures(caller, group_id, false)
    }

    fn update_batch_signatures(&mut self, caller: &Address, group_id: GroupId, add: bool) -> (r: Result<
        (),
        MultisigError,
    >)
        requires
            old(self).wf(),
        ensures
            final(self).wf(),
            match if add {
                old(self)@.sign_batch_result(*caller, group_id)
            } else {
                old(self)@.unsign_batch_result(*caller, group_id)
            } {
                Ok(w) => r is Ok && final(self)@ == w,
                Err(e) => r == Err::<(), MultisigError>(e) && final(self)@ == old(self)@,
            },
    {
        let (caller_id, caller_role) = self.get_caller_id_and_role(caller);
        if !caller_role.can_sign() {
            return Err(MultisigError::Unauthorized);
        }
        if group_id < 1 || group_id > self.action_groups.len() {
            return Err(MultisigError::GroupNotFound);
        }
        if self.action_group_statuses[group_id - 1] != ActionStatus::Pending {
            return Err(MultisigError::AlreadyFinalized);
        }
        proof {
            crate::identity::lemma_id_of_bounds(self@.users, *caller);
        }
        let ghost prev = self@;
        let ghost changed = |s: Seq<AddressId>|
            if add {
                add_signer(s, caller_id)
            } else {
                drop_id(s, caller_id)
            };
        let members = copy_vec(&self.action_groups[group_id - 1]);
        assert(prev.signers =~= Seq::new(
            prev.signers.len(),
            |i: int|
                if occurs(members@.subrange(0, 0), i + 1) && prev.statuses[i] == ActionStatus::Pending {
                    changed(prev.signers[i])
                } else {
                    prev.signers[i]
                },
        ));
        let mut j: usize = 0;
        while j < members.len()
            invariant
                self.wf(),
                prev == old(self)@,
                prev.group_check(group_id) is None,
                prev.role_of_address(*caller).spec_can_sign(),
                caller_id == prev.user_id(*caller),
                1 <= group_id <= prev.groups.len(),
                1 <= caller_id <= prev.users.len(),
                members@ == prev.groups[group_id - 1],
                j <= members@.len(),
                self@ == (MultisigView {
                    signers: Seq::new(
                        prev.signers.len(),
                        |i: int|
                            if occurs(members@.subrange(0, j as int), i + 1) && prev.statuses[i]
                                == ActionStatus::Pending {
                                changed(prev.signers[i])
                            } else {
                                prev.signers[i]
                            },
                    ),
                    ..prev
                }),
                changed == (|s: Seq<AddressId>|
                    if add {
                        add_signer(s, caller_id)
                    } else {
                        drop_id(s, caller_id)
                    }),
            decreases members@.len() - j,
        {
            let ghost cur = self@;
            let m = members[j];
            assert(m == self@.groups[group_id - 1][j as int]);
            assert(1 <= m <= prev.action_data.len());
            proof {
                let s0 = prev.signers[m - 1];
                lemma_add_signer(s0, caller_id);
                lemma_drop_id(s0, caller_id);
                lemma_drop_id(drop_id(s0, caller_id), caller_id);
            }
            if self.action_statuses[m - 1] == ActionStatus::Pending {
                if add {
                    self.add_signature(m, caller_id);
                } else {
                    self.remove_signature(m, caller_id);
                }
            }
            proof {
                assert forall|x: int| #[trigger] occurs(members@.subrange(0, j + 1), x) <==> (occurs(
                    members@.subrange(0, j as int),
                    x,
                ) || members@[j as int] == x) by {
                    lemma_occurs_prefix(members@, j as int, x);
                }
                assert(self@.signers =~= Seq::new(
                    prev.signers.len(),
                    |i: int|
                        if occurs(members@.subrange(0, j + 1), i + 1) && prev.statuses[i]
                            == ActionStatus::Pending {
                            changed(prev.signers[i])
                        } else {
                            prev.signers[i]
                        },
                ));
            }
            j = j + 1;
        }
        assert(members@.subrange(0, j as int) =~= members@);
        proof {
            if add {
                assert(self@.signers =~= prev.sign_batch_result(*caller, group_id)->Ok_0.signers);
            } else {
                assert(self@.signers =~= prev.unsign_batch_result(*caller, group_id)->Ok_0.signers);
            }
        }
        Ok(())
    }
}

} // verus!
