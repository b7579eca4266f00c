use vstd::prelude::*;

use crate::action::Action;
use crate::identity::{addresses_distinct, id_of, inserted, lemma_id_of_bounds, lemma_id_of_push};
use crate::model::lemma_valid_signer_count_push;
use crate::perform::lemma_change_role_board_count;
use crate::state::{MultisigView, StateModule};
use crate::types::{ActionId, ActionStatus, Address, AddressId, MultisigError, UserRole, MAX_BOARD_MEMBERS};

verus! {

/// An address that was never registered has the unknown id. Registering it gives
/// it a non-zero id; registering it again returns that id and changes nothing, and
/// every other address keeps its id.
pub proof fn lemma_registration_is_stable(users: Seq<Address>, a: Address, b: Address)
    requires
        addresses_distinct(users),
    ensures
        !users.contains(a) ==> id_of(users, a) == 0,
        id_of(inserted(users, a), a) != 0,
        inserted(inserted(users, a), a) == inserted(users, a),
        id_of(inserted(users, a), a) == id_of(inserted(inserted(users, a), a), a),
        b != a ==> id_of(inserted(users, a), b) == id_of(users, b),
        id_of(users, a) != 0 ==> id_of(inserted(users, a), a) == id_of(users, a),
{
    lemma_id_of_bounds(users, a);
    if !users.contains(a) {
        assert forall|i: int| 0 <= i < users.len() implies users[i] != a by {
            if users[i] == a {
                assert(users.contains(a));
            }
        }
    }
    lemma_id_of_push(users, a, a);
    lemma_id_of_push(users, a, b);
}

/// Every well-formed state keeps the board within `MAX_BOARD_MEMBERS`, and its
/// board-member counter equals the number of ids holding the board-member role.
pub proof fn lemma_board_counter(s: &StateModule)
    requires
        s.wf(),
    ensures
        s@.num_board_members() <= MAX_BOARD_MEMBERS,
        s.spec_num_board_members() == s@.num_board_members(),
{
}

/// Making a board member of an address that already is one leaves the board size
/// as it was; making one of any other address adds exactly one.
pub proof fn lemma_re_adding_board_member_counts_once(v: MultisigView, a: Address)
    requires
        v.roles.len() == v.users.len() + 1,
        v.roles[0] == UserRole::Unassigned,
        v.users.len() < u64::MAX,
    ensures
        v.role_of_address(a) is BoardMember ==> v.change_role(a, UserRole::BoardMember).num_board_members()
            == v.num_board_members(),
        !(v.role_of_address(a) is BoardMember) ==> v.change_role(a, UserRole::BoardMember).num_board_members()
            == v.num_board_members() + 1,
{
    lemma_change_role_board_count(v, a, UserRole::BoardMember);
}

/// A pending action whose valid signers fall short of its quorum snapshot cannot
/// be performed. Where the count is one short, the signature of a board member
/// who has not signed yet brings the count to exactly the snapshot, and from then
/// on performing depends on the action's effect alone.
pub proof fn lemma_quorum_gate(
    v: MultisigView,
    signer: Address,
    caller: Address,
    id: ActionId,
    failed: Seq<ActionId>,
)
    requires
        v.action_exists(id),
        v.statuses[id - 1] == ActionStatus::Pending,
        v.role_of_address(caller).spec_can_propose(),
        v.users.len() < u64::MAX,
        v.statuses.len() == v.action_data.len(),
        v.signers.len() == v.action_data.len(),
        v.action_quorums.len() == v.action_data.len(),
    ensures
        v.valid_count(id) < v.action_quorums[id - 1] ==> v.perform_result(caller, id, failed) == Err::<
            MultisigView,
            MultisigError,
        >(MultisigError::QuorumNotReached),
        ({
            let sid = v.user_id(signer) as AddressId;
            v.role_of_address(signer) is BoardMember && !v.signers[id - 1].contains(sid)
                && v.valid_count(id) + 1 == v.action_quorums[id - 1] ==> {
                let s = v.sign_result(signer, id)->Ok_0;
                &&& v.sign_result(signer, id) is Ok
                &&& s.valid_count(id) == s.action_quorums[id - 1]
                &&& s.perform_result(caller, id, failed) == match s.effect(id, failed) {
                    Ok(w) => Ok(
                        MultisigView { statuses: w.statuses.update(id - 1, ActionStatus::Performed), ..w },
                    ),
                    Err(e) => Err(e),
                }
            }
        }),
{
    lemma_id_of_bounds(v.users, signer);
    let sid = v.user_id(signer) as AddressId;
    if v.role_of_address(signer) is BoardMember && !v.signers[id - 1].contains(sid) {
        lemma_valid_signer_count_push(v.signers[id - 1], sid, v.roles);
        let s = v.sign_result(signer, id)->Ok_0;
        assert(s.signers[id - 1] == v.signers[id - 1].push(sid));
    }
}

/// The signers that count toward quorum are at most all signers of the action,
/// and all of them exactly when every signer holds the board-member role now.
pub proof fn lemma_valid_signers_within_signers(v: MultisigView, id: ActionId)
    requires
        v.action_exists(id),
        v.signers.len() == v.action_data.len(),
    ensures
        v.valid_count(id) <= v.signers[id - 1].len(),
        v.valid_count(id) == v.signers[id - 1].len() <==> (forall|k: int|
            0 <= k < v.signers[id - 1].len() ==> (#[trigger] crate::model::role_of(v.roles, v.signers[id - 1][k])) is BoardMember),
{
    crate::model::lemma_valid_signer_count_bounds(v.signers[id - 1], v.roles);
}

/// Discarding an action that was already performed fails with `AlreadyFinalized`.
pub proof fn lemma_discard_performed(v: MultisigView, caller: Address, id: ActionId)
    requires
        v.action_exists(id),
        v.statuses.len() == v.action_data.len(),
        v.statuses[id - 1] == ActionStatus::Performed,
    ensures
        v.discard_result(caller, id) == Err::<MultisigView, MultisigError>(MultisigError::AlreadyFinalized),
{
}

proof fn lemma_with_actions(v: MultisigView, pid: AddressId, signs: bool, actions: Seq<Action>, g: usize)
    ensures
        ({
            let w = v.with_actions(pid, signs, actions, g);
            &&& w.action_data.len() == v.action_data.len() + actions.len()
            &&& w.statuses.len() == v.statuses.len() + actions.len()
            &&& w.action_groups.len() == v.action_groups.len() + actions.len()
            &&& w.groups == v.groups
            &&& w.group_statuses == v.group_statuses
            &&& w.users == v.users
            &&& w.roles == v.roles
            &&& w.quorum == v.quorum
            &&& forall|i: int| 0 <= i < v.statuses.len() ==> w.statuses[i] == v.statuses[i]
            &&& forall|i: int| v.statuses.len() <= i < w.statuses.len() ==> w.statuses[i] == ActionStatus::Pending
            &&& forall|i: int| v.action_groups.len() <= i < w.action_groups.len() ==> w.action_groups[i] == g
            &&& forall|i: int| 0 <= i < actions.len() ==> w.action_data[v.action_data.len() + i] == #[trigger] actions[i]
        }),
    decreases actions.len(),
{
    if actions.len() > 0 {
        let prefix = actions.drop_last();
        lemma_with_actions(v, pid, signs, prefix, g);
        let w = v.with_actions(pid, signs, actions, g);
        assert forall|i: int| 0 <= i < actions.len() implies w.action_data[v.action_data.len() + i]
            == #[trigger] actions[i] by {
            if i < prefix.len() {
                assert(prefix[i] == actions[i]);
            }
        }
    }
}

/// A batch of `k` actions, proposed by a board member or a proposer, takes one new
/// group id and the `k` action ids that follow the last one, in order, all pending,
/// and leaves every earlier action as it was.
pub proof fn lemma_batch_proposal(v: MultisigView, caller: Address, actions: Seq<Action>)
    requires
        v.role_of_address(caller).spec_can_propose(),
        v.statuses.len() == v.action_data.len(),
        v.action_groups.len() == v.action_data.len(),
        v.groups.len() + 1 < usize::MAX,
        v.users.len() < u64::MAX,
    ensures
        ({
            let w = v.propose_batch_result(caller, actions)->Ok_0;
            let n = v.action_data.len();
            &&& v.propose_batch_result(caller, actions) is Ok
            &&& w.groups.len() == v.groups.len() + 1
            &&& w.groups.last() == Seq::new(actions.len(), |k: int| (n + 1 + k) as ActionId)
            &&& w.group_statuses.last() == ActionStatus::Pending
            &&& w.action_data.len() == n + actions.len()
            &&& forall|k: int| 0 <= k < actions.len() ==> w.action_data[n + k] == #[trigger] actions[k]
            &&& forall|i: int| n <= i < n + actions.len() ==> w.statuses[i] == ActionStatus::Pending
            &&& forall|i: int| n <= i < n + actions.len() ==> w.action_groups[i] == v.groups.len() + 1
            &&& forall|i: int| 0 <= i < n ==> w.statuses[i] == v.statuses[i]
        }),
{
    let g = (v.groups.len() + 1) as usize;
    lemma_with_actions(v, v.user_id(caller) as AddressId, v.role_of_address(caller).spec_can_sign(), actions, g);
}

} // verus!
