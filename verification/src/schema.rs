//! What the handlers hand on: transfers and approvals of tokens, and what contracts say of
//! themselves.

use vstd::prelude::*;

verus! {

/// A change of a token's owner.
#[derive(Debug, PartialEq)]
pub struct Transfer {
    pub from: String,
    pub to: String,
    pub token_id: String,
    pub tx_hash: String,
    pub token_name: String,
    pub token_symbol: String,
    pub token_uri: String,
}

/// The texts of a [`Transfer`].
pub struct TransferView {
    pub from: Seq<char>,
    pub to: Seq<char>,
    pub token_id: Seq<char>,
    pub tx_hash: Seq<char>,
    pub token_name: Seq<char>,
    pub token_symbol: Seq<char>,
    pub token_uri: Seq<char>,
}

impl View for Transfer {
    type V = TransferView;

    open spec fn view(&self) -> TransferView {
        TransferView {
            from: self.from@,
            to: self.to@,
            token_id: self.token_id@,
            tx_hash: self.tx_hash@,
            token_name: self.token_name@,
            token_symbol: self.token_symbol@,
            token_uri: self.token_uri@,
        }
    }
}

/// Transfers, in the order in which they happened.
#[derive(Debug, PartialEq)]
pub struct Transfers {
    pub transfers: Vec<Transfer>,
}

impl View for Transfers {
    type V = Seq<TransferView>;

    open spec fn view(&self) -> Seq<TransferView> {
        self.transfers@.map_values(|t: Transfer| t@)
    }
}

/// A permission to transfer a token, given by its owner.
#[derive(Debug, PartialEq)]
pub struct Approval {
    pub owner: String,
    pub approved: String,
    pub token_id: String,
    pub tx_hash: String,
    pub token_name: String,
    pub token_symbol: String,
    pub token_uri: String,
}

/// The texts of an [`Approval`].
pub struct ApprovalView {
    pub owner: Seq<char>,
    pub approved: Seq<char>,
    pub token_id: Seq<char>,
    pub tx_hash: Seq<char>,
    pub token_name: Seq<char>,
    pub token_symbol: Seq<char>,
    pub token_uri: Seq<char>,
}

impl View for Approval {
    type V = ApprovalView;

    open spec fn view(&self) -> ApprovalView {
        ApprovalView {
            owner: self.owner@,
            approved: self.approved@,
            token_id: self.token_id@,
            tx_hash: self.tx_hash@,
            token_name: self.token_name@,
            token_symbol: self.token_symbol@,
            token_uri: self.token_uri@,
        }
    }
}

/// Approvals, in the order in which they happened.
#[derive(Debug, PartialEq)]
pub struct Approvals {
    pub approvals: Vec<Approval>,
}

impl View for Approvals {
    type V = Seq<ApprovalView>;

    open spec fn view(&self) -> Seq<ApprovalView> {
        self.approvals@.map_values(|a: Approval| a@)
    }
}

/// What a token contract says of itself. What it does not say is empty or zero.
#[derive(Debug, PartialEq)]
pub struct Contract {
    pub name: String,
    pub symbol: String,
    pub decimals: u64,
}

/// A [`Contract`] with its texts as sequences of characters.
pub struct ContractView {
    pub name: Seq<char>,
    pub symbol: Seq<char>,
    pub decimals: u64,
}

impl View for Contract {
    type V = ContractView;

    open spec fn view(&self) -> ContractView {
        ContractView { name: self.name@, symbol: self.symbol@, decimals: self.decimals }
    }
}

impl Default for Contract {
    fn default() -> (r: Contract)
        ensures
            r@ == (ContractView { name: seq![], symbol: seq![], decimals: 0 }),
    {
        Contract { name: String::new(), symbol: String::new(), decimals: 0 }
    }
}

/// Contracts, in the order of their creation.
#[derive(Debug, PartialEq)]
pub struct Contracts {
    pub contracts: Vec<Contract>,
}

impl View for Contracts {
    type V = Seq<ContractView>;

    open spec fn view(&self) -> Seq<ContractView> {
        self.contracts@.map_values(|c: Contract| c@)
    }
}

/// The block that a handler is called for.
#[derive(Debug, PartialEq)]
pub struct Clock {
    pub number: u64,
}

/// A transfer is seen by the texts of its fields, each under its own name.
pub proof fn law_transfer_fields(transfer: Transfer)
    ensures
        transfer@.from == transfer.from@,
        transfer@.to == transfer.to@,
        transfer@.token_id == transfer.token_id@,
        transfer@.tx_hash == transfer.tx_hash@,
        transfer@.token_name == transfer.token_name@,
        transfer@.token_symbol == transfer.token_symbol@,
        transfer@.token_uri == transfer.token_uri@,
{
}

/// An approval is seen by the texts of its fields, each under its own name.
pub proof fn law_approval_fields(approval: Approval)
    ensures
        approval@.owner == approval.owner@,
        approval@.approved == approval.approved@,
        approval@.token_id == approval.token_id@,
        approval@.tx_hash == approval.tx_hash@,
        approval@.token_name == approval.token_name@,
        approval@.token_symbol == approval.token_symbol@,
        approval@.token_uri == approval.token_uri@,
{
}

/// A contract is seen by its fields, each under its own name.
pub proof fn law_contract_fields(contract: Contract)
    ensures
        contract@.name == contract.name@,
        contract@.symbol == contract.symbol@,
        contract@.decimals == contract.decimals,
{
}

/// Lists are seen item by item, in order.
pub proof fn law_lists(transfers: Transfers, approvals: Approvals, contracts: Contracts)
    ensures
        transfers@.len() == transfers.transfers@.len(),
        forall|i: int|
            0 <= i < transfers@.len() ==> #[trigger] transfers@[i] == transfers.transfers@[i]@,
        approvals@.len() == approvals.approvals@.len(),
        forall|i: int|
            0 <= i < approvals@.len() ==> #[trigger] approvals@[i] == approvals.approvals@[i]@,
        contracts@.len() == contracts.contracts@.len(),
        forall|i: int|
            0 <= i < contracts@.len() ==> #[trigger] contracts@[i] == contracts.contracts@[i]@,
{
}

} // verus!
