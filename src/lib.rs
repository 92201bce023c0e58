use vstd::prelude::*;

pub mod contract;
pub mod error;
pub mod laws;
pub mod msg;
pub mod order;
pub mod state;

use crate::contract::exec::{bid_reply, close_reply, retract_reply};
use crate::contract::query::reports;
use crate::error::{ContractError, Failure};
use crate::msg::{ExecMsg, InstantiateMsg, MessageInfo, QueryMsg, Response, ValueResponse};
use crate::state::{bid_step, close_step, net_of, retract_step, Auction, AuctionModel};

verus! {

/// The outcome of a state-changing request.
pub open spec fn exec_step(m: AuctionModel, info: MessageInfo, msg: ExecMsg) -> Result<
    AuctionModel,
    Failure,
> {
    match msg {
        ExecMsg::Bid {  } => bid_step(m, info.sender@, info.funds@),
        ExecMsg::Close {  } => close_step(m, info.sender@),
        ExecMsg::Retract { receiver: _ } => retract_step(m, info.sender@),
    }
}

/// What a successful state-changing request reports.
pub open spec fn exec_reply(old: Auction, info: MessageInfo, msg: ExecMsg, resp: Response) -> bool {
    match msg {
        ExecMsg::Bid {  } => bid_reply(old, info, resp),
        ExecMsg::Close {  } => close_reply(old, info, resp),
        ExecMsg::Retract { receiver } => retract_reply(old, info, receiver, resp),
    }
}

/// Opens an auction; see `contract::instantiate`.
pub fn instantiate(info: &MessageInfo, msg: InstantiateMsg, owner_is_valid: bool) -> (r: Result<
    Auction,
    ContractError,
>)
    requires
        msg.part.is_fraction(),
    ensures
        crate::contract::opens(*info, msg, owner_is_valid, r),
{
    crate::contract::instantiate(info, msg, owner_is_valid)
}

/// Answers a read-only request.
pub fn query(auction: &Auction, msg: QueryMsg) -> (r: ValueResponse)
    ensures
        reports(*auction, r),
{
    match msg {
        QueryMsg::Value {  } => crate::contract::query::value(auction),
    }
}

/// Carries out a state-changing request by `info.sender`. A refused request
/// leaves the auction as it was.
pub fn execute(auction: &mut Auction, info: &MessageInfo, msg: ExecMsg) -> (r: Result<
    Response,
    ContractError,
>)
    requires
        old(auction).wf(),
        msg is Bid && old(auction)@.open ==> old(auction)@.total_of(info.sender@) + net_of(
            info.funds@,
            old(auction)@.token,
            old(auction)@.part,
        ) <= u128::MAX,
    ensures
        final(auction).wf(),
        match r {
            Ok(resp) => {
                &&& exec_step(old(auction)@, *info, msg) == Ok::<AuctionModel, Failure>(final(auction)@)
                &&& exec_reply(*old(auction), *info, msg, resp)
            },
            Err(e) => {
                &&& exec_step(old(auction)@, *info, msg) == Err::<AuctionModel, Failure>(e@)
                &&& *final(auction) == *old(auction)
            },
        },
{
    match msg {
        ExecMsg::Bid {  } => crate::contract::exec::bid(auction, info),
        ExecMsg::Close {  } => crate::contract::exec::close(auction, info),
        ExecMsg::Retract { receiver } => crate::contract::exec::retract(auction, info, receiver),
    }
}

} // verus!
