use vstd::prelude::*;

use crate::error::{ContractError, Failure};
use crate::msg::{Bid, InstantiateMsg, MessageInfo};
use crate::state::{ledger_of, Auction, State};

pub mod exec;
pub mod query;

verus! {

/// The owner of a new auction: the one named, else the instantiating caller.
pub open spec fn owner_of(info: MessageInfo, msg: InstantiateMsg) -> Seq<char> {
    match msg.owner {
        Some(o) => o@,
        None => info.sender@,
    }
}

/// The outcome of instantiation: an open, well-formed auction with the given
/// parameters and owner, no escrow, and a highest bid of zero by the caller;
/// or, exactly when the named owner is not a valid address, its refusal.
pub open spec fn opens(
    info: MessageInfo,
    msg: InstantiateMsg,
    owner_is_valid: bool,
    r: Result<Auction, ContractError>,
) -> bool {
    match r {
        Ok(a) => {
            &&& msg.owner is None || owner_is_valid
            &&& a.wf()
            &&& a@.open
            &&& a@.token == msg.token@
            &&& a@.part == msg.part.atomics as nat
            &&& a@.owner == owner_of(info, msg)
            &&& a@.bids == Map::<Seq<char>, nat>::empty()
            &&& a@.highest == (info.sender@, 0nat)
        },
        Err(e) => {
            &&& msg.owner is Some && !owner_is_valid
            &&& e@ == Failure::InvalidAddress { addr: msg.owner->Some_0@ }
        },
    }
}

/// Opens an auction of `msg.token` at commission `msg.part`, owned by
/// `msg.owner` or else by the caller, with a highest bid of zero by the
/// caller and no escrow. `owner_is_valid` tells whether the named owner is a
/// valid address on the host; an invalid one is refused.
pub fn instantiate(info: &MessageInfo, msg: InstantiateMsg, owner_is_valid: bool) -> (r: Result<
    Auction,
    ContractError,
>)
    requires
        msg.part.is_fraction(),
    ensures
        opens(*info, msg, owner_is_valid, r),
{
    let owner = match msg.owner {
        Some(o) => {
            if !owner_is_valid {
                return Err(ContractError::InvalidAddress { addr: o });
            }
            o
        },
        None => info.sender.clone(),
    };
    let bids: Vec<Bid> = Vec::new();
    assert(ledger_of(bids@) =~= Map::<Seq<char>, nat>::empty());
    Ok(Auction {
        state: State { open: true, token: msg.token, part: msg.part },
        owner,
        bids,
        highest_bid: Bid { addr: info.sender.clone(), amount: 0 },
    })
}

} // verus!
