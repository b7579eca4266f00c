use vstd::prelude::*;

use crate::action::Action;
use crate::identity::{id_of, lemma_id_of_bounds, IdentityIndex};
use crate::model::{count_role, ids_distinct, lemma_count_le, lemma_count_push, lemma_count_update, role_of};
use crate::types::{
    ActionId, ActionStatus, Address, AddressId, GroupId, MultisigError, Nonce, UserRole,
    MAX_BOARD_MEMBERS,
};

verus! {

/// The whole persisted state of the multisig, as plain mathematical values.
/// Users are indexed from 1 (`users[k - 1]` has id `k`); `roles` and `nonces` are
/// indexed by id, with index 0 standing for the unknown user. Actions and groups
/// are indexed from 1 in the same way.
pub struct MultisigView {
    pub users: Seq<Address>,
    pub roles: Seq<UserRole>,
    pub nonces: Seq<Nonce>,
    pub quorum: usize,
    pub action_data: Seq<Action>,
    pub proposers: Seq<AddressId>,
    pub statuses: Seq<ActionStatus>,
    pub action_quorums: Seq<usize>,
    pub action_groups: Seq<GroupId>,
    pub signers: Seq<Seq<AddressId>>,
    pub groups: Seq<Seq<ActionId>>,
    pub group_statuses: Seq<ActionStatus>,
}

impl MultisigView {
    /// A multisig with no users, no actions, no groups and quorum 0.
    pub open spec fn empty() -> MultisigView {
        MultisigView {
            users: Seq::empty(),
            roles: seq![UserRole::Unassigned],
            nonces: seq![0],
            quorum: 0,
            action_data: Seq::empty(),
            proposers: Seq::empty(),
            statuses: Seq::empty(),
            action_quorums: Seq::empty(),
            action_groups: Seq::empty(),
            signers: Seq::empty(),
            groups: Seq::empty(),
            group_statuses: Seq::empty(),
        }
    }

    pub open spec fn user_id(self, a: Address) -> nat {
        id_of(self.users, a)
    }

    pub open spec fn role_of_id(self, id: AddressId) -> UserRole {
        role_of(self.roles, id)
    }

    pub open spec fn role_of_address(self, a: Address) -> UserRole {
        role_of(self.roles, id_of(self.users, a) as AddressId)
    }

    /// The nonce stored for `a`; 0 for an unknown address.
    pub open spec fn nonce_of(self, a: Address) -> Nonce {
        let id = id_of(self.users, a);
        if id != 0 && id < self.nonces.len() {
            self.nonces[id as int]
        } else {
            0
        }
    }

    pub open spec fn num_board_members(self) -> nat {
        count_role(self.roles, UserRole::BoardMember)
    }

    pub open spec fn num_proposers(self) -> nat {
        count_role(self.roles, UserRole::Proposer)
    }

    pub open spec fn action_exists(self, id: ActionId) -> bool {
        1 <= id <= self.action_data.len()
    }

    pub open spec fn group_exists(self, g: GroupId) -> bool {
        1 <= g <= self.groups.len()
    }

    /// The state after `a` is given `role`. Giving no role to an unknown address
    /// changes nothing; any other change registers `a` where it is unknown.
    pub open spec fn change_role(self, a: Address, role: UserRole) -> MultisigView {
        let id = id_of(self.users, a);
        if id == 0 && role is Unassigned {
            self
        } else if id == 0 {
            MultisigView {
                users: self.users.push(a),
                roles: self.roles.push(role),
                nonces: self.nonces.push(0),
                ..self
            }
        } else {
            MultisigView { roles: self.roles.update(id as int, role), ..self }
        }
    }

    /// The state after each of `addrs`, in order, is made a board member.
    pub open spec fn with_board_members(self, addrs: Seq<Address>) -> MultisigView
        decreases addrs.len(),
    {
        if addrs.len() == 0 {
            self
        } else {
            self.with_board_members(addrs.drop_last()).change_role(addrs.last(), UserRole::BoardMember)
        }
    }
}

/// The addresses whose id holds role `r`, in order of id.
pub open spec fn addresses_with_role(users: Seq<Address>, roles: Seq<UserRole>, r: UserRole) -> Seq<Address>
    decreases users.len(),
{
    if users.len() == 0 {
        Seq::empty()
    } else if role_of(roles, users.len() as AddressId) == r {
        addresses_with_role(users.drop_last(), roles, r).push(users.last())
    } else {
        addresses_with_role(users.drop_last(), roles, r)
    }
}

pub proof fn lemma_grew_from_refl(v: MultisigView)
    ensures
        grew_from(v, v),
{
    assert(v.users.subrange(0, v.users.len() as int) =~= v.users);
    assert(v.nonces.subrange(0, v.nonces.len() as int) =~= v.nonces);
}

pub proof fn lemma_change_role_grows(v: MultisigView, prev: MultisigView, a: Address, role: UserRole)
    requires
        grew_from(v, prev),
    ensures
        grew_from(v.change_role(a, role), prev),
        v.change_role(a, role).users.len() <= v.users.len() + 1,
{
    let w = v.change_role(a, role);
    assert(w.users.subrange(0, prev.users.len() as int) =~= prev.users);
    assert(w.nonces.subrange(0, prev.nonces.len() as int) =~= prev.nonces);
}

/// Signer lists hold each id once, and only ids that were handed out.
pub open spec fn signers_well_formed(signers: Seq<AddressId>, num_users: nat) -> bool {
    &&& ids_distinct(signers)
    &&& forall|k: int| 0 <= k < signers.len() ==> 1 <= #[trigger] signers[k] <= num_users
}

/// The multisig's storage: identity index, roles and nonces, the action log with
/// its per-action records, and the groups of actions proposed together.
pub struct StateModule {
    pub(crate) user_ids: IdentityIndex,
    pub(crate) user_roles: Vec<UserRole>,
    pub(crate) user_nonces: Vec<Nonce>,
    pub(crate) quorum: usize,
    pub(crate) num_board_members: usize,
    pub(crate) num_proposers: usize,
    pub(crate) action_data: Vec<Action>,
    pub(crate) action_proposers: Vec<AddressId>,
    pub(crate) action_statuses: Vec<ActionStatus>,
    pub(crate) quorum_for_action: Vec<usize>,
    pub(crate) group_for_action: Vec<GroupId>,
    pub(crate) action_signer_ids: Vec<Vec<AddressId>>,
    pub(crate) action_groups: Vec<Vec<ActionId>>,
    pub(crate) action_group_statuses: Vec<ActionStatus>,
}

impl View for StateModule {
    type V = MultisigView;

    open(crate) spec fn view(&self) -> MultisigView {
        MultisigView {
            users: self.user_ids@,
            roles: self.user_roles@,
            nonces: self.user_nonces@,
            quorum: self.quorum,
            action_data: self.action_data@,
            proposers: self.action_proposers@,
            statuses: self.action_statuses@,
            action_quorums: self.quorum_for_action@,
            action_groups: self.group_for_action@,
            signers: self.action_signer_ids@.map_values(|v: Vec<AddressId>| v@),
            groups: self.action_groups@.map_values(|v: Vec<ActionId>| v@),
            group_statuses: self.action_group_statuses@,
        }
    }
}

/// What a call saves before it starts a sequence of changes that may have to be
/// undone as a whole.
pub(crate) struct Snapshot {
    pub(crate) num_users: usize,
    pub(crate) roles: Vec<UserRole>,
    pub(crate) quorum: usize,
    pub(crate) num_board_members: usize,
    pub(crate) num_proposers: usize,
    pub(crate) statuses: Vec<ActionStatus>,
    pub(crate) group_statuses: Vec<ActionStatus>,
}

pub(crate) fn copy_vec<T: Copy>(v: &Vec<T>) -> (r: Vec<T>)
    ensures
        r@ == v@,
{
    let mut r: Vec<T> = Vec::new();
    let mut i: usize = 0;
    while i < v.len()
        invariant
            i <= v@.len(),
            r@ == v@.subrange(0, i as int),
        decreases v@.len() - i,
    {
        r.push(v[i]);
        i = i + 1;
        assert(r@ =~= v@.subrange(0, i as int));
    }
    assert(r@ =~= v@);
    r
}

/// `cur` differs from `prev` only by registered users (appended, with nonce 0),
/// roles, the quorum and statuses.
pub open spec fn grew_from(cur: MultisigView, prev: MultisigView) -> bool {
    &&& prev.users.len() <= cur.users.len()
    &&& cur.users.subrange(0, prev.users.len() as int) == prev.users
    &&& cur.nonces.subrange(0, prev.nonces.len() as int) == prev.nonces
    &&& prev.nonces.len() <= cur.nonces.len()
    &&& cur.action_data == prev.action_data
    &&& cur.proposers == prev.proposers
    &&& cur.action_quorums == prev.action_quorums
    &&& cur.action_groups == prev.action_groups
    &&& cur.signers == prev.signers
    &&& cur.groups == prev.groups
    &&& cur.statuses.len() == prev.statuses.len()
    &&& cur.group_statuses.len() == prev.group_statuses.len()
}

impl StateModule {
    /// Everything the state keeps consistent, but for the cap on the board size.
    pub open(crate) spec fn wf_core(&self) -> bool {
        let v = self@;
        &&& self.user_ids.wf()
        &&& v.roles.len() == v.users.len() + 1
        &&& v.nonces.len() == v.users.len() + 1
        &&& v.roles[0] == UserRole::Unassigned
        &&& self.num_board_members == v.num_board_members()
        &&& self.num_proposers == v.num_proposers()
        &&& self.action_proposers@.len() == self.action_data@.len()
        &&& self.action_statuses@.len() == self.action_data@.len()
        &&& self.quorum_for_action@.len() == self.action_data@.len()
        &&& self.group_for_action@.len() == self.action_data@.len()
        &&& self.action_signer_ids@.len() == self.action_data@.len()
        &&& self.action_group_statuses@.len() == self.action_groups@.len()
        &&& forall|i: int|
            0 <= i < v.signers.len() ==> signers_well_formed(#[trigger] v.signers[i], v.users.len())
        &&& forall|g: int, k: int|
            0 <= g < v.groups.len() && 0 <= k < v.groups[g].len() ==> 1 <= #[trigger] v.groups[g][k]
                <= v.action_data.len()
    }

    /// The state's invariant: `wf_core`, and a board no larger than `MAX_BOARD_MEMBERS`.
    pub open(crate) spec fn wf(&self) -> bool {
        &&& self.wf_core()
        &&& self.num_board_members <= MAX_BOARD_MEMBERS
    }

    /// The stored board-member counter.
    pub open(crate) spec fn spec_num_board_members(&self) -> nat {
        self.num_board_members as nat
    }

    /// Whether `k` more users can be registered without running out of ids.
    pub open spec fn has_room_for(&self, k: nat) -> bool {
        self@.users.len() + k + 1 < u64::MAX
    }

    /// Gives `a` the role `role`, registering it where needed, and keeps the
    /// board-member and proposer counters in step with the roles.
    pub(crate) fn change_user_role(&mut self, a: &Address, role: UserRole)
        requires
            old(self).wf_core(),
            old(self).has_room_for(1),
        ensures
            final(self).wf_core(),
            final(self)@ == old(self)@.change_role(*a, role),
    {
        let ghost prev = self@;
        let id = self.user_ids.get_id(a);
        proof {
            lemma_id_of_bounds(prev.users, *a);
        }
        if id == 0 {
            if let UserRole::Unassigned = role {
                return;
            }
            proof {
                lemma_count_push(prev.roles, role, UserRole::BoardMember);
                lemma_count_push(prev.roles, role, UserRole::Proposer);
                lemma_count_le(prev.roles.push(role), UserRole::BoardMember);
                lemma_count_le(prev.roles.push(role), UserRole::Proposer);
            }
            self.user_ids.insert_new(a);
            self.user_roles.push(role);
            self.user_nonces.push(0);
            assert(self.user_roles.len() <= usize::MAX);
            if let UserRole::BoardMember = role {
                self.num_board_members = self.num_board_members + 1;
            }
            if let UserRole::Proposer = role {
                self.num_proposers = self.num_proposers + 1;
            }
        } else {
            assert(self.user_roles.len() <= usize::MAX);
            let idx = id as usize;
            let old_role = self.user_roles[idx];
            proof {
                lemma_count_update(prev.roles, idx as int, UserRole::Unassigned, UserRole::BoardMember);
                lemma_count_update(prev.roles, idx as int, UserRole::Unassigned, UserRole::Proposer);
                lemma_count_update(prev.roles, idx as int, role, UserRole::BoardMember);
                lemma_count_update(prev.roles, idx as int, role, UserRole::Proposer);
                lemma_count_le(prev.roles.update(idx as int, role), UserRole::BoardMember);
                lemma_count_le(prev.roles.update(idx as int, role), UserRole::Proposer);
            }
            self.user_roles.set(idx, role);
            if let UserRole::BoardMember = old_role {
                self.num_board_members = self.num_board_members - 1;
            }
            if let UserRole::BoardMember = role {
                self.num_board_members = self.num_board_members + 1;
            }
            if let UserRole::Proposer = old_role {
                self.num_proposers = self.num_proposers - 1;
            }
            if let UserRole::Proposer = role {
                self.num_proposers = self.num_proposers + 1;
            }
        }
        assert(self@.users == prev.change_role(*a, role).users);
        assert(self@.roles == prev.change_role(*a, role).roles);
        assert(self@.nonces == prev.change_role(*a, role).nonces);
        assert(self@.signers == prev.change_role(*a, role).signers);
        assert(self@ == prev.change_role(*a, role));
    }

    /// A multisig whose board is `board` and whose quorum is `quorum`. Fails with
    /// `BoardSizeExceeded` where the board would exceed `MAX_BOARD_MEMBERS`, and with
    /// `QuorumExceedsBoardSize` where the quorum exceeds the board size.
    pub fn new(quorum: usize, board: &Vec<Address>) -> (r: Result<StateModule, MultisigError>)
        requires
            board@.len() + 1 < u64::MAX,
        ensures
            ({
                let v = MultisigView::empty().with_board_members(board@);
                match r {
                    Ok(s) => {
                        &&& s.wf()
                        &&& v.num_board_members() <= MAX_BOARD_MEMBERS
                        &&& quorum <= v.num_board_members()
                        &&& s@ == MultisigView { quorum, ..v }
                    },
                    Err(e) => {
                        ||| v.num_board_members() > MAX_BOARD_MEMBERS && e
                            == MultisigError::BoardSizeExceeded
                        ||| v.num_board_members() <= MAX_BOARD_MEMBERS && quorum > v.num_board_members()
                            && e == MultisigError::QuorumExceedsBoardSize
                    },
                }
            }),
    {
        let mut roles: Vec<UserRole> = Vec::new();
        roles.push(UserRole::Unassigned);
        let mut nonces: Vec<Nonce> = Vec::new();
        nonces.push(0);
        let mut s = StateModule {
            user_ids: IdentityIndex::new(),
            user_roles: roles,
            user_nonces: nonces,
            quorum: 0,
            num_board_members: 0,
            num_proposers: 0,
            action_data: Vec::new(),
            action_proposers: Vec::new(),
            action_statuses: Vec::new(),
            quorum_for_action: Vec::new(),
            group_for_action: Vec::new(),
            action_signer_ids: Vec::new(),
            action_groups: Vec::new(),
            action_group_statuses: Vec::new(),
        };
        proof {
            assert(s@.roles.drop_last() =~= Seq::<UserRole>::empty());
            assert(count_role(s@.roles.drop_last(), UserRole::BoardMember) == 0);
            assert(count_role(s@.roles, UserRole::BoardMember) == 0);
            assert(count_role(s@.roles.drop_last(), UserRole::Proposer) == 0);
            assert(count_role(s@.roles, UserRole::Proposer) == 0);
            assert(s@.signers =~= Seq::<Seq<AddressId>>::empty());
            assert(s@.groups =~= Seq::<Seq<ActionId>>::empty());
            assert(s@ =~= MultisigView::empty());
        }
        let num = match s.add_multiple_board_members(board) {
            Ok(n) => n,
            Err(e) => return Err(e),
        };
        if quorum > num {
            return Err(MultisigError::QuorumExceedsBoardSize);
        }
        s.quorum = quorum;
        Ok(s)
    }

    /// Makes each of `new_board_members` a board member, registering unknown
    /// addresses, and returns the new board size. An address that already is a
    /// board member, or that occurs twice, is counted once. Where the board would
    /// exceed `MAX_BOARD_MEMBERS`, fails with `BoardSizeExceeded` and changes nothing.
    pub fn add_multiple_board_members(&mut self, new_board_members: &Vec<Address>) -> (r: Result<
        usize,
        MultisigError,
    >)
        requires
            old(self).wf(),
            old(self).has_room_for(new_board_members@.len()),
        ensures
            final(self).wf(),
            old(self)@.with_board_members(new_board_members@).num_board_members() > MAX_BOARD_MEMBERS
                ==> r == Err::<usize, MultisigError>(MultisigError::BoardSizeExceeded) && final(self)@
                == old(self)@,
            old(self)@.with_board_members(new_board_members@).num_board_members() <= MAX_BOARD_MEMBERS
                ==> r == Ok::<usize, MultisigError>(
                old(self)@.with_board_members(new_board_members@).num_board_members() as usize,
            ) && final(self)@ == old(self)@.with_board_members(new_board_members@),
    {
        let ghost prev = self@;
        let snap = self.take_snapshot();
        proof {
            lemma_grew_from_refl(prev);
            assert(new_board_members@.subrange(0, 0) =~= Seq::<Address>::empty());
        }
        let mut i: usize = 0;
        while i < new_board_members.len()
            invariant
                self.wf_core(),
                0 <= i <= new_board_members@.len(),
                self@ == prev.with_board_members(new_board_members@.subrange(0, i as int)),
                grew_from(self@, prev),
                self@.users.len() <= prev.users.len() + i,
                prev.users.len() + new_board_members@.len() + 1 < u64::MAX,
            decreases new_board_members@.len() - i,
        {
            let ghost before = self@;
            proof {
                lemma_change_role_grows(before, prev, new_board_members@[i as int], UserRole::BoardMember);
            }
            self.change_user_role(&new_board_members[i], UserRole::BoardMember);
            i = i + 1;
            assert(new_board_members@.subrange(0, i as int).drop_last() =~= new_board_members@.subrange(
                0,
                i - 1,
            ));
        }
        assert(new_board_members@.subrange(0, i as int) =~= new_board_members@);
        if self.num_board_members > MAX_BOARD_MEMBERS {
            self.restore(snap, Ghost(prev));
            return Err(MultisigError::BoardSizeExceeded);
        }
        Ok(self.num_board_members)
    }

    /// Returns the nonce stored for `user_address` and stores its successor; fails
    /// with `UnknownUser` for an address that was never registered.
    pub fn get_and_increment_user_nonce(&mut self, user_address: &Address) -> (r: Result<
        Nonce,
        MultisigError,
    >)
        requires
            old(self).wf(),
            old(self)@.nonce_of(*user_address) < u64::MAX,
        ensures
            final(self).wf(),
            old(self)@.user_id(*user_address) == 0 ==> r == Err::<Nonce, MultisigError>(
                MultisigError::UnknownUser,
            ) && final(self)@ == old(self)@,
            old(self)@.user_id(*user_address) != 0 ==> ({
                let id = old(self)@.user_id(*user_address) as int;
                &&& r == Ok::<Nonce, MultisigError>(old(self)@.nonces[id])
                &&& final(self)@ == MultisigView {
                    nonces: old(self)@.nonces.update(id, (old(self)@.nonces[id] + 1) as Nonce),
                    ..old(self)@
                }
            }),
    {
        let user_id = match self.user_ids.get_id_non_zero(user_address) {
            Ok(id) => id,
            Err(e) => return Err(e),
        };
        proof {
            lemma_id_of_bounds(self@.users, *user_address);
        }
        assert(self.user_nonces.len() <= usize::MAX);
        let idx = user_id as usize;
        let output_nonce = self.user_nonces[idx];
        self.user_nonces.set(idx, output_nonce + 1);
        Ok(output_nonce)
    }

    pub(crate) fn take_snapshot(&self) -> (r: Snapshot)
        ensures
            r.num_users == self@.users.len(),
            r.roles@ == self@.roles,
            r.quorum == self.quorum,
            r.num_board_members == self.num_board_members,
            r.num_proposers == self.num_proposers,
            r.statuses@ == self@.statuses,
            r.group_statuses@ == self@.group_statuses,
    {
        Snapshot {
            num_users: self.user_ids.len(),
            roles: copy_vec(&self.user_roles),
            quorum: self.quorum,
            num_board_members: self.num_board_members,
            num_proposers: self.num_proposers,
            statuses: copy_vec(&self.action_statuses),
            group_statuses: copy_vec(&self.action_group_statuses),
        }
    }

    /// Puts back the state that `snap` was taken of.
    pub(crate) fn restore(&mut self, snap: Snapshot, Ghost(prev): Ghost<MultisigView>)
        requires
            old(self).wf_core(),
            grew_from(old(self)@, prev),
            prev.roles.len() == prev.users.len() + 1,
            prev.nonces.len() == prev.users.len() + 1,
            prev.roles[0] == UserRole::Unassigned,
            forall|i: int|
                0 <= i < prev.signers.len() ==> signers_well_formed(#[trigger] prev.signers[i], prev.users.len()),
            snap.num_users == prev.users.len(),
            snap.roles@ == prev.roles,
            snap.quorum == prev.quorum,
            snap.num_board_members == prev.num_board_members(),
            snap.num_proposers == prev.num_proposers(),
            snap.statuses@ == prev.statuses,
            snap.group_statuses@ == prev.group_statuses,
        ensures
            final(self)@ == prev,
            final(self).wf_core(),
            final(self).num_board_members == prev.num_board_members(),
    {
        self.user_ids.truncate(snap.num_users);
        let nonces_len = self.user_nonces.len();
        assert(snap.num_users + 1 <= nonces_len);
        self.user_nonces.truncate(snap.num_users + 1);
        self.user_roles = snap.roles;
        self.quorum = snap.quorum;
        self.num_board_members = snap.num_board_members;
        self.num_proposers = snap.num_proposers;
        self.action_statuses = snap.statuses;
        self.action_group_statuses = snap.group_statuses;
        assert(self@.users =~= prev.users);
        assert(self@.nonces =~= prev.nonces);
        assert(self@ == prev);
    }
}

} // verus!
