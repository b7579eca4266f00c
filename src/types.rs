use vstd::prelude::*;

verus! {

/// A 32-byte account address, as the hosting ledger hands it over.
pub type Address = [u8; 32];

/// Compact identifier of a registered address; `UNKNOWN_USER_ID` is never assigned.
pub type AddressId = u64;

/// 1-based index of an action in the action log.
pub type ActionId = usize;

/// 1-based index of a batch of actions proposed together.
pub type GroupId = usize;

/// Per-user counter used to build replay-safe proposals.
pub type Nonce = u64;

/// The id that `get_id` reports for an address that was never registered.
pub const UNKNOWN_USER_ID: AddressId = 0;

/// Upper bound on the number of board members.
pub const MAX_BOARD_MEMBERS: usize = 30;

/// Compares two addresses byte by byte.
pub fn addresses_equal(a: &Address, b: &Address) -> (r: bool)
    ensures
        r == (*a == *b),
{
    let mut i: usize = 0;
    while i < 32
        invariant
            i <= 32,
            forall|j: int| 0 <= j < i ==> a[j] == b[j],
        decreases 32 - i,
    {
        if a[i] != b[i] {
            return false;
        }
        i = i + 1;
    }
    assert(*a =~= *b);
    true
}

/// The role a registered user holds.
#[derive(Clone, Copy, Debug, PartialEq, Eq, Structural)]
pub enum UserRole {
    Unassigned,
    Proposer,
    BoardMember,
}

impl UserRole {
    pub open spec fn spec_can_propose(self) -> bool {
        self is Proposer || self is BoardMember
    }

    pub open spec fn spec_can_sign(self) -> bool {
        self is BoardMember
    }

    /// Board members and proposers may create actions.
    pub fn can_propose(&self) -> (r: bool)
        ensures
            r == self.spec_can_propose(),
    {
        match self {
            UserRole::Unassigned => false,
            _ => true,
        }
    }

    /// Only board members sign and count toward quorum.
    pub fn can_sign(&self) -> (r: bool)
        ensures
            r == self.spec_can_sign(),
    {
        match self {
            UserRole::BoardMember => true,
            _ => false,
        }
    }
}

/// Lifecycle status of an action or of a group of actions.
#[derive(Clone, Copy, Debug, PartialEq, Eq, Structural)]
pub enum ActionStatus {
    Pending,
    Performed,
    Discarded,
}

/// Why an operation of the engine was refused. A refused call changes nothing.
#[derive(Clone, Copy, Debug, PartialEq, Eq, Structural)]
pub enum MultisigError {
    /// The caller's role does not allow the operation.
    Unauthorized,
    /// The address was never registered.
    UnknownUser,
    /// No action has the given id.
    ActionNotFound,
    /// Perform was asked of an action that is no longer pending.
    ActionNotPending,
    /// Sign, unsign or discard was asked of an action that is no longer pending.
    AlreadyFinalized,
    /// Fewer valid signatures than the action's quorum snapshot.
    QuorumNotReached,
    /// The board would grow beyond `MAX_BOARD_MEMBERS`.
    BoardSizeExceeded,
    /// No group has the given id.
    GroupNotFound,
    /// The quorum would exceed the number of board members.
    QuorumExceedsBoardSize,
    /// The last board member cannot be removed.
    CannotRemoveAllBoardMembers,
    /// The host reported that the action's outside effect failed.
    EffectFailed,
}

} // verus!
