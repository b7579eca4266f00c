use multisig::action::{Action, CallActionData};
use multisig::state::StateModule;
use multisig::types::{ActionStatus, Address, MultisigError, UserRole, MAX_BOARD_MEMBERS};

fn addr(n: u8) -> Address {
    let mut a = [0u8; 32];
    a[0] = n;
    a[31] = n.wrapping_mul(7);
    a
}

fn board(quorum: usize, members: &[u8]) -> StateModule {
    let list: Vec<Address> = members.iter().map(|m| addr(*m)).collect();
    StateModule::new(quorum, &list).unwrap()
}

fn transfer(to: u8) -> Action {
    Action::TransferExecute(CallActionData {
        to: addr(to),
        egld_amount: 1_000,
        endpoint_name: b"deposit".to_vec(),
        arguments: vec![],
    })
}

const A: u8 = 1;
const B: u8 = 2;
const C: u8 = 3;
const D: u8 = 4;
const P: u8 = 9;
const STRANGER: u8 = 200;

#[test]
fn change_quorum_scenario() {
    let mut s = board(2, &[A, B, C]);
    let none: Vec<usize> = vec![];
    let id = s.propose_action(&addr(A), Action::ChangeQuorum(3)).unwrap();
    assert_eq!(id, 1);
    s.sign(&addr(A), 1).unwrap();
    assert_eq!(s.get_action_valid_signer_count(1), 1);
    assert_eq!(s.perform_action(&addr(A), 1, &none), Err(MultisigError::QuorumNotReached));
    assert_eq!(s.get_action_status(1), Ok(ActionStatus::Pending));
    s.sign(&addr(B), 1).unwrap();
    assert_eq!(s.get_action_valid_signer_count(1), 2);
    assert_eq!(s.perform_action(&addr(A), 1, &none), Ok(()));
    assert_eq!(s.get_quorum(), 3);
    assert_eq!(s.get_action_status(1), Ok(ActionStatus::Performed));
    assert_eq!(s.sign(&addr(C), 1), Err(MultisigError::AlreadyFinalized));
}

#[test]
fn removed_board_member_signature_stays_until_purged() {
    let mut s = board(1, &[A, B, C, D]);
    let none: Vec<usize> = vec![];
    let x = s.propose_action(&addr(A), transfer(50)).unwrap();
    s.sign(&addr(D), x).unwrap();
    let remove = s.propose_action(&addr(A), Action::RemoveUser(addr(D))).unwrap();
    s.perform_action(&addr(A), remove, &none).unwrap();
    assert_eq!(s.user_role(&addr(D)), UserRole::Unassigned);
    assert_eq!(s.get_action_signer_count(x), 2);
    assert_eq!(s.get_action_valid_signer_count(x), 1);
    assert!(s.signed(&addr(D), x));
    s.unsign_for_outdated_board_members(x).unwrap();
    assert_eq!(s.get_action_signer_count(x), 1);
    assert!(!s.signed(&addr(D), x));
    assert_eq!(s.get_action_signers(x), vec![addr(A)]);
}

#[test]
fn unknown_address_has_unknown_id_and_registration_is_stable() {
    let mut s = board(1, &[A]);
    assert_eq!(s.get_caller_id_and_role(&addr(B)), (0, UserRole::Unassigned));
    let before = s.add_multiple_board_members(&vec![addr(B)]).unwrap();
    assert_eq!(before, 2);
    let (id_b, role_b) = s.get_caller_id_and_role(&addr(B));
    assert_eq!(id_b, 2);
    assert_eq!(role_b, UserRole::BoardMember);
    assert_eq!(s.add_multiple_board_members(&vec![addr(B)]), Ok(2));
    assert_eq!(s.get_caller_id_and_role(&addr(B)).0, 2);
    assert_eq!(s.get_caller_id_and_role(&addr(A)).0, 1);
    assert_eq!(s.get_all_board_members(), vec![addr(A), addr(B)]);
}

#[test]
fn valid_signers_never_exceed_signers() {
    let mut s = board(1, &[A, B, C]);
    let none: Vec<usize> = vec![];
    let x = s.propose_action(&addr(A), transfer(60)).unwrap();
    s.sign(&addr(B), x).unwrap();
    assert_eq!(s.get_action_signer_count(x), 2);
    assert_eq!(s.get_action_valid_signer_count(x), 2);
    let y = s.propose_action(&addr(C), Action::AddProposer(addr(B))).unwrap();
    s.perform_action(&addr(C), y, &none).unwrap();
    assert_eq!(s.get_action_signer_count(x), 2);
    assert_eq!(s.get_action_valid_signer_count(x), 1);
    assert!(s.get_action_valid_signer_count(x) <= s.get_action_signer_count(x));
}

#[test]
fn perform_waits_for_exact_quorum() {
    let mut s = board(3, &[A, B, C]);
    let none: Vec<usize> = vec![];
    let x = s.propose_action(&addr(A), transfer(70)).unwrap();
    assert_eq!(s.perform_action(&addr(A), x, &none), Err(MultisigError::QuorumNotReached));
    s.sign(&addr(B), x).unwrap();
    assert!(!s.quorum_reached(x));
    assert_eq!(s.perform_action(&addr(A), x, &none), Err(MultisigError::QuorumNotReached));
    s.sign(&addr(C), x).unwrap();
    assert!(s.quorum_reached(x));
    assert_eq!(s.perform_action(&addr(A), x, &none), Ok(()));
    assert_eq!(s.perform_action(&addr(A), x, &none), Err(MultisigError::ActionNotPending));
}

#[test]
fn board_cap_is_enforced_and_counters_unchanged() {
    let mut s = board(1, &[A]);
    let many: Vec<Address> = (10..(10 + MAX_BOARD_MEMBERS as u8)).map(addr).collect();
    assert_eq!(s.add_multiple_board_members(&many), Err(MultisigError::BoardSizeExceeded));
    assert_eq!(s.get_num_board_members(), 1);
    assert_eq!(s.get_all_board_members(), vec![addr(A)]);
    assert_eq!(s.get_caller_id_and_role(&addr(10)).0, 0);
    let fits: Vec<Address> = (10..(9 + MAX_BOARD_MEMBERS as u8)).map(addr).collect();
    assert_eq!(s.add_multiple_board_members(&fits), Ok(MAX_BOARD_MEMBERS));
    assert_eq!(s.get_num_board_members(), MAX_BOARD_MEMBERS);
}

#[test]
fn re_adding_board_members_counts_each_once() {
    let mut s = board(1, &[A, B]);
    assert_eq!(s.add_multiple_board_members(&vec![addr(A), addr(C), addr(C)]), Ok(3));
    assert_eq!(s.get_num_board_members(), 3);
    let none: Vec<usize> = vec![];
    let x = s.propose_action(&addr(A), Action::AddBoardMember(addr(B))).unwrap();
    s.perform_action(&addr(A), x, &none).unwrap();
    assert_eq!(s.get_num_board_members(), 3);
}

#[test]
fn board_size_exceeded_by_add_board_member_action() {
    let members: Vec<u8> = (1..=(MAX_BOARD_MEMBERS as u8)).collect();
    let mut s = board(1, &members);
    let none: Vec<usize> = vec![];
    let x = s.propose_action(&addr(1), Action::AddBoardMember(addr(100))).unwrap();
    assert_eq!(s.perform_action(&addr(1), x, &none), Err(MultisigError::BoardSizeExceeded));
    assert_eq!(s.get_action_status(x), Ok(ActionStatus::Pending));
    assert_eq!(s.get_num_board_members(), MAX_BOARD_MEMBERS);
}

#[test]
fn discard_of_performed_action_fails() {
    let mut s = board(1, &[A, B]);
    let none: Vec<usize> = vec![];
    let x = s.propose_action(&addr(A), transfer(80)).unwrap();
    s.perform_action(&addr(A), x, &none).unwrap();
    assert_eq!(s.discard_action(&addr(A), x), Err(MultisigError::AlreadyFinalized));
    assert_eq!(s.get_action_status(x), Ok(ActionStatus::Performed));
}

#[test]
fn discard_rules() {
    let mut s = board(2, &[A, B]);
    s.add_multiple_board_members(&vec![]).unwrap();
    let none: Vec<usize> = vec![];
    let p = s.propose_action(&addr(A), Action::AddProposer(addr(P))).unwrap();
    s.sign(&addr(B), p).unwrap();
    s.perform_action(&addr(A), p, &none).unwrap();
    let x = s.propose_action(&addr(P), transfer(81)).unwrap();
    assert_eq!(s.get_action_signer_count(x), 0);
    assert_eq!(s.discard_action(&addr(B), x), Err(MultisigError::Unauthorized));
    assert_eq!(s.discard_action(&addr(P), x), Ok(()));
    assert_eq!(s.get_action_status(x), Ok(ActionStatus::Discarded));
    assert_eq!(s.discard_action(&addr(P), 99), Err(MultisigError::ActionNotFound));
}

#[test]
fn board_member_may_discard_when_quorum_unreachable() {
    let mut s = board(2, &[A, B, C]);
    let none: Vec<usize> = vec![];
    let p = s.propose_action(&addr(A), Action::AddProposer(addr(P))).unwrap();
    s.sign(&addr(B), p).unwrap();
    s.perform_action(&addr(A), p, &none).unwrap();
    let x = s.propose_action(&addr(P), transfer(82)).unwrap();
    assert_eq!(s.discard_action(&addr(A), x), Err(MultisigError::Unauthorized));
    let q = s.propose_action(&addr(A), Action::ChangeQuorum(1)).unwrap();
    s.sign(&addr(B), q).unwrap();
    s.perform_action(&addr(A), q, &none).unwrap();
    let r1 = s.propose_action(&addr(A), Action::RemoveUser(addr(B))).unwrap();
    s.perform_action(&addr(A), r1, &none).unwrap();
    let r2 = s.propose_action(&addr(A), Action::RemoveUser(addr(C))).unwrap();
    s.perform_action(&addr(A), r2, &none).unwrap();
    assert_eq!(s.get_num_board_members(), 1);
    assert_eq!(s.discard_action(&addr(A), x), Ok(()));
    assert_eq!(s.get_action_status(x), Ok(ActionStatus::Discarded));
}

#[test]
fn batch_takes_one_group_and_contiguous_ids() {
    let mut s = board(1, &[A, B]);
    let before = s.propose_action(&addr(A), transfer(1)).unwrap();
    let g = s.propose_batch(&addr(A), vec![transfer(2), transfer(3), transfer(4)]).unwrap();
    assert_eq!(g, 1);
    assert_eq!(s.get_num_groups(), 1);
    assert_eq!(s.get_last_group_action_id(), 1);
    assert_eq!(s.get_action_group(g), Ok(vec![before + 1, before + 2, before + 3]));
    assert_eq!(s.get_action_last_index(), 4);
    assert_eq!(s.get_group_status(g), Ok(ActionStatus::Pending));
}

#[test]
fn batch_is_atomic_when_second_effect_fails() {
    let mut s = board(1, &[A, B]);
    let g = s.propose_batch(&addr(A), vec![Action::ChangeQuorum(2), transfer(3), transfer(4)]).unwrap();
    let ids = s.get_action_group(g).unwrap();
    let failed = vec![ids[1]];
    assert_eq!(s.perform_batch(&addr(A), g, &failed), Err(MultisigError::EffectFailed));
    for id in &ids {
        assert_eq!(s.get_action_status(*id), Ok(ActionStatus::Pending));
    }
    assert_eq!(s.get_quorum(), 1);
    assert_eq!(s.get_group_status(g), Ok(ActionStatus::Pending));
    let none: Vec<usize> = vec![];
    assert_eq!(s.perform_batch(&addr(A), g, &none), Ok(()));
    assert_eq!(s.get_quorum(), 2);
    for id in &ids {
        assert_eq!(s.get_action_status(*id), Ok(ActionStatus::Performed));
    }
    assert_eq!(s.get_group_status(g), Ok(ActionStatus::Performed));
    assert_eq!(s.perform_batch(&addr(A), g, &none), Err(MultisigError::ActionNotPending));
}

#[test]
fn batch_rolls_back_registered_users() {
    let mut s = board(1, &[A]);
    let g = s.propose_batch(&addr(A), vec![Action::AddProposer(addr(P)), transfer(3)]).unwrap();
    let ids = s.get_action_group(g).unwrap();
    assert_eq!(s.perform_batch(&addr(A), g, &vec![ids[1]]), Err(MultisigError::EffectFailed));
    assert_eq!(s.get_caller_id_and_role(&addr(P)), (0, UserRole::Unassigned));
    assert_eq!(s.get_num_proposers(), 0);
}

#[test]
fn proposer_signature_is_recorded_for_board_members_only() {
    let mut s = board(2, &[A, B]);
    let none: Vec<usize> = vec![];
    let x = s.propose_action(&addr(A), transfer(5)).unwrap();
    assert!(s.signed(&addr(A), x));
    assert_eq!(s.get_action_signer_count(x), 1);
    let p = s.propose_action(&addr(A), Action::AddProposer(addr(P))).unwrap();
    s.sign(&addr(B), p).unwrap();
    s.perform_action(&addr(A), p, &none).unwrap();
    assert_eq!(s.get_num_proposers(), 1);
    let y = s.propose_action(&addr(P), transfer(6)).unwrap();
    assert_eq!(s.get_action_signer_count(y), 0);
    assert_eq!(s.sign(&addr(P), y), Err(MultisigError::Unauthorized));
    assert_eq!(s.get_all_proposers(), vec![addr(P)]);
}

#[test]
fn errors_for_unknown_users_actions_and_groups() {
    let mut s = board(1, &[A]);
    let none: Vec<usize> = vec![];
    assert_eq!(s.propose_action(&addr(STRANGER), transfer(1)), Err(MultisigError::Unauthorized));
    assert_eq!(s.sign(&addr(A), 0), Err(MultisigError::ActionNotFound));
    assert_eq!(s.sign(&addr(A), 5), Err(MultisigError::ActionNotFound));
    assert!(s.get_action_data(0).is_err());
    assert_eq!(s.get_action_status(1), Err(MultisigError::ActionNotFound));
    assert_eq!(s.perform_action(&addr(STRANGER), 1, &none), Err(MultisigError::Unauthorized));
    assert_eq!(s.perform_batch(&addr(A), 1, &none), Err(MultisigError::GroupNotFound));
    assert_eq!(s.sign_batch(&addr(A), 1), Err(MultisigError::GroupNotFound));
    assert_eq!(s.discard_batch(&addr(A), 3), Err(MultisigError::GroupNotFound));
    assert_eq!(s.get_and_increment_user_nonce(&addr(STRANGER)), Err(MultisigError::UnknownUser));
}

#[test]
fn quorum_and_removal_limits() {
    let mut s = board(2, &[A, B]);
    let none: Vec<usize> = vec![];
    let q = s.propose_action(&addr(A), Action::ChangeQuorum(3)).unwrap();
    s.sign(&addr(B), q).unwrap();
    assert_eq!(s.perform_action(&addr(A), q, &none), Err(MultisigError::QuorumExceedsBoardSize));
    let r = s.propose_action(&addr(A), Action::RemoveUser(addr(B))).unwrap();
    s.sign(&addr(B), r).unwrap();
    assert_eq!(s.perform_action(&addr(A), r, &none), Err(MultisigError::QuorumExceedsBoardSize));
    let mut one = board(1, &[A]);
    let r = one.propose_action(&addr(A), Action::RemoveUser(addr(A))).unwrap();
    assert_eq!(one.perform_action(&addr(A), r, &none), Err(MultisigError::CannotRemoveAllBoardMembers));
    assert!(StateModule::new(3, &vec![addr(A), addr(B)]).is_err());
}

#[test]
fn nonces_increase_by_one() {
    let mut s = board(1, &[A]);
    assert_eq!(s.get_user_nonce(&addr(A)), 0);
    assert_eq!(s.get_and_increment_user_nonce(&addr(A)), Ok(0));
    assert_eq!(s.get_and_increment_user_nonce(&addr(A)), Ok(1));
    assert_eq!(s.get_user_nonce(&addr(A)), 2);
    assert_eq!(s.get_user_nonce(&addr(STRANGER)), 0);
}

#[test]
fn unsign_and_re_sign() {
    let mut s = board(2, &[A, B]);
    let x = s.propose_action(&addr(A), transfer(7)).unwrap();
    s.sign(&addr(B), x).unwrap();
    s.sign(&addr(B), x).unwrap();
    assert_eq!(s.get_action_signer_count(x), 2);
    s.unsign(&addr(B), x).unwrap();
    assert_eq!(s.get_action_signer_count(x), 1);
    s.unsign(&addr(B), x).unwrap();
    assert_eq!(s.get_action_signers(x), vec![addr(A)]);
    assert_eq!(s.unsign(&addr(STRANGER), x), Err(MultisigError::Unauthorized));
}

#[test]
fn sign_and_perform_runs_on_the_last_signature() {
    let mut s = board(3, &[A, B, C]);
    let none: Vec<usize> = vec![];
    let x = s.propose_action(&addr(A), Action::ChangeQuorum(2)).unwrap();
    assert_eq!(s.sign_and_perform(&addr(B), x, &none), Ok(false));
    assert_eq!(s.get_action_status(x), Ok(ActionStatus::Pending));
    assert_eq!(s.sign_and_perform(&addr(C), x, &none), Ok(true));
    assert_eq!(s.get_quorum(), 2);
    let y = s.propose_action(&addr(A), transfer(8)).unwrap();
    assert_eq!(s.sign_and_perform(&addr(B), y, &vec![y]), Err(MultisigError::EffectFailed));
    assert!(!s.signed(&addr(B), y));
    assert_eq!(s.get_action_status(y), Ok(ActionStatus::Pending));
}

#[test]
fn batch_signing_and_discarding() {
    let mut s = board(2, &[A, B, C]);
    let none: Vec<usize> = vec![];
    let g = s.propose_batch(&addr(A), vec![transfer(1), transfer(2)]).unwrap();
    let ids = s.get_action_group(g).unwrap();
    s.sign_batch(&addr(B), g).unwrap();
    for id in &ids {
        assert_eq!(s.get_action_valid_signer_count(*id), 2);
    }
    s.unsign_batch(&addr(B), g).unwrap();
    for id in &ids {
        assert_eq!(s.get_action_valid_signer_count(*id), 1);
    }
    assert_eq!(s.sign_batch_and_perform(&addr(C), g, &none), Ok(true));
    assert_eq!(s.get_group_status(g), Ok(ActionStatus::Performed));
    let h = s.propose_batch(&addr(A), vec![transfer(3), transfer(4)]).unwrap();
    assert_eq!(s.discard_batch(&addr(B), h), Err(MultisigError::Unauthorized));
    assert_eq!(s.discard_batch(&addr(A), h), Ok(()));
    for id in s.get_action_group(h).unwrap() {
        assert_eq!(s.get_action_status(id), Ok(ActionStatus::Discarded));
    }
    assert_eq!(s.sign_batch(&addr(A), h), Err(MultisigError::AlreadyFinalized));
}

#[test]
fn sign_batch_and_perform_keeps_nothing_on_failure() {
    let mut s = board(2, &[A, B]);
    let g = s.propose_batch(&addr(A), vec![transfer(1), transfer(2)]).unwrap();
    let ids = s.get_action_group(g).unwrap();
    assert_eq!(s.sign_batch_and_perform(&addr(B), g, &vec![ids[0]]), Err(MultisigError::EffectFailed));
    assert!(!s.signed(&addr(B), ids[0]));
    assert!(!s.signed(&addr(B), ids[1]));
}

#[test]
fn action_data_is_kept() {
    let mut s = board(1, &[A]);
    let x = s.propose_action(&addr(A), Action::ChangeQuorum(1)).unwrap();
    match s.get_action_data(x) {
        Ok(Action::ChangeQuorum(q)) => assert_eq!(*q, 1),
        _ => panic!("expected the proposed action"),
    }
}
