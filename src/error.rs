use vstd::prelude::*;

verus! {

/// Why a call into the auction was refused.
#[derive(Debug, Clone, PartialEq, Eq)]
pub enum ContractError {
    /// The explicit owner given at instantiation is not a valid address.
    InvalidAddress { addr: String },
    /// Only the owner may close the auction.
    Unauthorized { owner: String },
    /// A bid arrived after the auction was closed.
    BiddingClosed,
    /// The bidder's new total would not exceed the highest bid.
    BidLow { highest: u128, sender_total: u128 },
    /// The auction was closed already.
    BiddingAlreadyClosed,
    /// Escrow can be withdrawn only after closing.
    EarlyRetractErr,
    /// The caller has no escrow to withdraw.
    NoBidsRetractErr,
}

/// A refusal as a mathematical value.
pub enum Failure {
    InvalidAddress { addr: Seq<char> },
    Unauthorized { owner: Seq<char> },
    BiddingClosed,
    BidLow { highest: nat, sender_total: nat },
    BiddingAlreadyClosed,
    EarlyRetractErr,
    NoBidsRetractErr,
}

impl View for ContractError {
    type V = Failure;

    open spec fn view(&self) -> Failure {
        match self {
            ContractError::InvalidAddress { addr } => Failure::InvalidAddress { addr: addr@ },
            ContractError::Unauthorized { owner } => Failure::Unauthorized { owner: owner@ },
            ContractError::BiddingClosed => Failure::BiddingClosed,
            ContractError::BidLow { highest, sender_total } => Failure::BidLow {
                highest: *highest as nat,
                sender_total: *sender_total as nat,
            },
            ContractError::BiddingAlreadyClosed => Failure::BiddingAlreadyClosed,
            ContractError::EarlyRetractErr => Failure::EarlyRetractErr,
            ContractError::NoBidsRetractErr => Failure::NoBidsRetractErr,
        }
    }
}

} // verus!
