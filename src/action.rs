use vstd::prelude::*;

use crate::types::Address;

verus! {

/// A call to a contract endpoint with an attached amount of the native coin.
pub struct CallActionData {
    pub to: Address,
    pub egld_amount: u128,
    pub endpoint_name: Vec<u8>,
    pub arguments: Vec<Vec<u8>>,
}

/// One token transfer: identifier, nonce (0 for fungible tokens) and amount.
pub struct TokenTransfer {
    pub token_identifier: Vec<u8>,
    pub token_nonce: u64,
    pub amount: u128,
}

/// A call to a contract endpoint that carries token transfers.
pub struct TokenCallActionData {
    pub to: Address,
    pub tokens: Vec<TokenTransfer>,
    pub endpoint_name: Vec<u8>,
    pub arguments: Vec<Vec<u8>>,
}

/// Deployment of a new contract with the code of a template contract.
pub struct DeployData {
    pub amount: u128,
    pub source: Address,
    pub code_metadata: u16,
    pub arguments: Vec<Vec<u8>>,
}

/// Upgrade of a contract to the code of a template contract.
pub struct UpgradeData {
    pub sc_address: Address,
    pub amount: u128,
    pub source: Address,
    pub code_metadata: u16,
    pub arguments: Vec<Vec<u8>>,
}

/// An operation proposed to the board. Its payload never changes once proposed.
pub enum Action {
    AddBoardMember(Address),
    AddProposer(Address),
    RemoveUser(Address),
    ChangeQuorum(usize),
    TransferExecute(CallActionData),
    TransferExecuteWithToken(TokenCallActionData),
    AsyncCall(CallActionData),
    DeployFromTemplate(DeployData),
    UpgradeFromTemplate(UpgradeData),
}

impl Action {
    /// Whether performing the action hands work to the host (a transfer, a call,
    /// a deployment or an upgrade), whose outcome the host then reports.
    pub open spec fn spec_has_outside_effect(&self) -> bool {
        !(self is AddBoardMember || self is AddProposer || self is RemoveUser || self is ChangeQuorum)
    }

    pub fn has_outside_effect(&self) -> (r: bool)
        ensures
            r == self.spec_has_outside_effect(),
    {
        match self {
            Action::AddBoardMember(_) => false,
            Action::AddProposer(_) => false,
            Action::RemoveUser(_) => false,
            Action::ChangeQuorum(_) => false,
            _ => true,
        }
    }
}

} // verus!
