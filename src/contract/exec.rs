use vstd::prelude::*;

use crate::error::{ContractError, Failure};
use crate::msg::{Action, Bid, Coin, Decimal, MessageInfo, Response, Transfer, DECIMAL_FRACTIONAL};
use crate::order::{addr_lt, compare_addr, lemma_bytes_lt_transitive, key_of};
use crate::state::{
    attached, ascending, bid_step, close_step, retract_step, lemma_ledger_remove, commission_of, lemma_ledger_absent, lemma_ledger_entry,
    lemma_ledger_insert, lemma_ledger_update, ledger_of, net_of, position_of, Auction, AuctionModel,
};

verus! {

/// The amount of `token` among the funds.
fn attached_amount(funds: &Vec<Coin>, token: &String) -> (r: u128)
    ensures
        r == attached(funds@, token@),
{
    let mut amount: u128 = 0;
    let mut i: usize = 0;
    while i < funds.len()
        invariant
            i <= funds@.len(),
            amount == attached(funds@.subrange(0, i as int), token@),
        decreases funds@.len() - i,
    {
        assert(funds@.subrange(0, i + 1).drop_last() =~= funds@.subrange(0, i as int));
        if funds[i].denom == *token {
            amount = funds[i].amount;
        }
        i = i + 1;
    }
    assert(funds@.subrange(0, funds@.len() as int) =~= funds@);
    amount
}

/// The commission on `amount` at the rate `part`, rounded down.
fn commission(amount: u128, part: Decimal) -> (r: u128)
    requires
        part.is_fraction(),
    ensures
        r == commission_of(amount as nat, part.atomics as nat),
        r <= amount,
{
    let q = amount / DECIMAL_FRACTIONAL;
    let m = amount % DECIMAL_FRACTIONAL;
    let r = part.atomics;
    proof {
        let d = DECIMAL_FRACTIONAL as int;
        assert(amount as int == q * d + m) by (nonlinear_arith)
            requires q == amount as int / d, m == amount as int % d, d > 0;
        assert(q * r <= q * d) by (nonlinear_arith)
            requires r <= d, q >= 0;
        assert(m * r <= m * d) by (nonlinear_arith)
            requires r <= d, m >= 0;
        assert(m * d < d * d) by (nonlinear_arith)
            requires m < d, d > 0;
        assert((amount as int) * r == (q * r) * d + m * r) by (nonlinear_arith)
            requires amount as int == q * d + m;
        let t = m * r;
        vstd::arithmetic::div_mod::lemma_fundamental_div_mod(t, d);
        vstd::arithmetic::div_mod::lemma_mod_pos_bound(t, d);
        assert((amount as int) * r == d * (q * r + t / d) + t % d) by (nonlinear_arith)
            requires (amount as int) * r == (q * r) * d + t, t == d * (t / d) + t % d;
        vstd::arithmetic::div_mod::lemma_div_multiples_vanish_fancy(q * r + t / d, t % d, d);
        assert((m * r) / d <= m) by (nonlinear_arith)
            requires m * r <= m * d, d > 0, m >= 0, r >= 0;
    }
    q * r + (m * r) / DECIMAL_FRACTIONAL
}

/// Where the entry for `addr` stands (`Ok`), or where it would be inserted
/// to keep the entries ascending (`Err`).
fn find_bid(bids: &Vec<Bid>, addr: &String) -> (r: Result<usize, usize>)
    requires
        ascending(bids@),
    ensures
        match r {
            Ok(i) => i < bids@.len() && bids@[i as int].addr@ == addr@,
            Err(p) => p <= bids@.len() && (forall|j: int|
                0 <= j < p ==> addr_lt(#[trigger] bids@[j].addr@, addr@)) && (forall|j: int|
                p <= j < bids@.len() ==> addr_lt(addr@, #[trigger] bids@[j].addr@)),
        },
{
    let mut i: usize = 0;
    while i < bids.len()
        invariant
            i <= bids@.len(),
            ascending(bids@),
            forall|j: int| 0 <= j < i ==> addr_lt(#[trigger] bids@[j].addr@, addr@),
        decreases bids@.len() - i,
    {
        match compare_addr(&bids[i].addr, addr) {
            core::cmp::Ordering::Equal => {
                return Ok(i);
            },
            core::cmp::Ordering::Greater => {
                assert forall|j: int| i <= j < bids@.len() implies addr_lt(
                    addr@,
                    #[trigger] bids@[j].addr@,
                ) by {
                    if j > i {
                        assert(addr_lt(bids@[i as int].addr@, bids@[j].addr@));
                        lemma_bytes_lt_transitive(
                            key_of(addr@),
                            key_of(bids@[i as int].addr@),
                            key_of(bids@[j].addr@),
                        );
                    }
                }
                return Err(i);
            },
            core::cmp::Ordering::Less => {},
        }
        i = i + 1;
    }
    Err(i)
}

/// The entry for `addr`, if there is one.
fn lookup(bids: &Vec<Bid>, addr: &String) -> (r: Option<usize>)
    requires
        ascending(bids@),
    ensures
        match r {
            Some(i) => i < bids@.len() && bids@[i as int].addr@ == addr@ && ledger_of(bids@).contains_key(addr@)
                && ledger_of(bids@)[addr@] == bids@[i as int].amount as nat,
            None => !ledger_of(bids@).contains_key(addr@),
        },
{
    match find_bid(bids, addr) {
        Ok(i) => {
            proof {
                lemma_ledger_entry(bids@, i as int);
            }
            Some(i)
        },
        Err(p) => {
            proof {
                assert forall|j: int| 0 <= j < bids@.len() implies #[trigger] bids@[j].addr@ != addr@ by {
                    crate::order::lemma_bytes_lt_irreflexive(key_of(addr@));
                }
                lemma_ledger_absent(bids@, addr@);
            }
            None
        },
    }
}

/// What a bid reports: the sender, its new total, and the commission sent
/// to the owner in the auction's token.
pub open spec fn bid_reply(old: Auction, info: MessageInfo, resp: Response) -> bool {
    let amount = attached(info.funds@, old.state.token@);
    &&& resp.action == Action::Bid
    &&& resp.sender@ == info.sender@
    &&& resp.sender_total == Some(
        (old@.total_of(info.sender@) + net_of(info.funds@, old@.token, old@.part)) as u128,
    )
    &&& resp.receiver is None
    &&& resp.messages@.len() == 1
    &&& resp.messages@[0].to_address@ == old.owner@
    &&& resp.messages@[0].amount == commission_of(amount, old@.part)
    &&& resp.messages@[0].denom@ == old.state.token@
}

/// What a close reports: the sender, and the winning amount sent to the
/// owner when there was a bid.
pub open spec fn close_reply(old: Auction, info: MessageInfo, resp: Response) -> bool {
    &&& resp.action == Action::Close
    &&& resp.sender@ == info.sender@
    &&& resp.sender_total is None
    &&& resp.receiver is None
    &&& if old.highest_bid.amount > 0 {
        &&& resp.messages@.len() == 1
        &&& resp.messages@[0].to_address@ == old.owner@
        &&& resp.messages@[0].amount == old.highest_bid.amount
        &&& resp.messages@[0].denom@ == old.state.token@
    } else {
        resp.messages@.len() == 0
    }
}

/// Where retracted escrow goes: the receiver if one is named, else the sender.
pub open spec fn destination(info: MessageInfo, receiver: Option<String>) -> Seq<char> {
    match receiver {
        Some(to) => to@,
        None => info.sender@,
    }
}

/// What a retraction reports (under the label of a close): the sender, the
/// destination, and the whole escrow of the sender sent there.
pub open spec fn retract_reply(
    old: Auction,
    info: MessageInfo,
    receiver: Option<String>,
    resp: Response,
) -> bool {
    &&& resp.action == Action::Close
    &&& resp.sender@ == info.sender@
    &&& resp.sender_total is None
    &&& resp.receiver is Some
    &&& resp.receiver->Some_0@ == destination(info, receiver)
    &&& resp.messages@.len() == 1
    &&& resp.messages@[0].to_address@ == destination(info, receiver)
    &&& resp.messages@[0].amount == old@.bids[info.sender@]
    &&& resp.messages@[0].denom@ == old.state.token@
}

/// Adds the funds of `info.sender` in the auction's token, less the commission,
/// to its escrow, provided its new total exceeds the highest bid; the
/// commission goes to the owner.
pub fn bid(auction: &mut Auction, info: &MessageInfo) -> (r: Result<Response, ContractError>)
    requires
        old(auction).wf(),
        old(auction)@.open ==> old(auction)@.total_of(info.sender@) + net_of(
            info.funds@,
            old(auction)@.token,
            old(auction)@.part,
        ) <= u128::MAX,
    ensures
        final(auction).wf(),
        match r {
            Ok(resp) => {
                &&& bid_step(old(auction)@, info.sender@, info.funds@) == Ok::<AuctionModel, Failure>(final(auction)@)
                &&& bid_reply(*old(auction), *info, resp)
            },
            Err(e) => {
                &&& bid_step(old(auction)@, info.sender@, info.funds@) == Err::<AuctionModel, Failure>(e@)
                &&& *final(auction) == *old(auction)
            },
        },
{
    if !auction.state.open {
        return Err(ContractError::BiddingClosed);
    }
    let amount = attached_amount(&info.funds, &auction.state.token);
    let fee = commission(amount, auction.state.part);
    let net = amount - fee;
    let highest = auction.highest_bid.amount;
    let found = find_bid(&auction.bids, &info.sender);
    let prior: u128 = match found {
        Ok(i) => auction.bids[i].amount,
        Err(_) => 0,
    };
    proof {
        match found {
            Ok(i) => {
                lemma_ledger_entry(auction.bids@, i as int);
            },
            Err(p) => {
                assert forall|j: int| 0 <= j < auction.bids@.len() implies #[trigger] auction.bids@[j].addr@
                    != info.sender@ by {
                    crate::order::lemma_bytes_lt_irreflexive(key_of(info.sender@));
                }
                lemma_ledger_absent(auction.bids@, info.sender@);
            },
        }
        assert(prior == auction@.total_of(info.sender@));
    }
    if prior + net <= highest {
        return Err(ContractError::BidLow { highest, sender_total: prior });
    }
    let total = prior + net;
    let ghost s = auction.bids@;
    let entry = Bid { addr: info.sender.clone(), amount: total };
    match found {
        Ok(i) => {
            proof {
                lemma_ledger_update(s, i as int, entry);
            }
            auction.bids.set(i, entry);
        },
        Err(p) => {
            proof {
                let t = s.insert(p as int, entry);
                assert forall|x: int, y: int| 0 <= x < y < t.len() implies addr_lt(
                    #[trigger] t[x].addr@,
                    #[trigger] t[y].addr@,
                ) by {
                    if y < p {
                        assert(addr_lt(s[x].addr@, s[y].addr@));
                    } else if x > p {
                        assert(addr_lt(s[x - 1].addr@, s[y - 1].addr@));
                    } else if x == p {
                        assert(addr_lt(info.sender@, s[y - 1].addr@));
                    } else if y == p {
                        assert(addr_lt(s[x].addr@, info.sender@));
                    } else {
                        assert(addr_lt(s[x].addr@, s[y - 1].addr@));
                    }
                }
                lemma_ledger_insert(s, p as int, entry);
            }
            auction.bids.insert(p, entry);
        },
    }
    auction.highest_bid = Bid { addr: info.sender.clone(), amount: total };
    proof {
        let t = auction.bids@;
        assert forall|j: int| 0 <= j < t.len() implies 0 < #[trigger] t[j].amount <= total by {
            if t[j].addr@ != info.sender@ {
                lemma_ledger_entry(t, j);
                assert(ledger_of(s).contains_key(t[j].addr@));
                let k = position_of(s, t[j].addr@);
                lemma_ledger_entry(s, k);
            }
            else {
                lemma_ledger_entry(t, j);
            }
        }
        let w = position_of(t, info.sender@);
        assert(ledger_of(t).contains_key(info.sender@));
        lemma_ledger_entry(t, w);
        assert(auction@.bids =~= old(auction)@.bids.insert(info.sender@, total as nat));
    }
    let transfer = Transfer {
        to_address: auction.owner.clone(),
        amount: fee,
        denom: auction.state.token.clone(),
    };
    Ok(Response {
        action: Action::Bid,
        sender: info.sender.clone(),
        sender_total: Some(total),
        receiver: None,
        messages: vec![transfer],
    })
}

/// Closes bidding; only the owner may. The highest bid, if positive, is paid
/// to the owner out of its bidder's escrow.
pub fn close(auction: &mut Auction, info: &MessageInfo) -> (r: Result<Response, ContractError>)
    requires
        old(auction).wf(),
    ensures
        final(auction).wf(),
        match r {
            Ok(resp) => {
                &&& close_step(old(auction)@, info.sender@) == Ok::<AuctionModel, Failure>(final(auction)@)
                &&& close_reply(*old(auction), *info, resp)
            },
            Err(e) => {
                &&& close_step(old(auction)@, info.sender@) == Err::<AuctionModel, Failure>(e@)
                &&& *final(auction) == *old(auction)
            },
        },
{
    if !auction.state.open {
        return Err(ContractError::BiddingAlreadyClosed);
    }
    if info.sender != auction.owner {
        return Err(ContractError::Unauthorized { owner: auction.owner.clone() });
    }
    auction.state.open = false;
    let winner = auction.highest_bid.amount;
    if winner != 0 {
        let ghost s = auction.bids@;
        match lookup(&auction.bids, &auction.highest_bid.addr) {
            Some(i) => {
                proof {
                    lemma_ledger_remove(s, i as int);
                }
                auction.bids.remove(i);
            },
            None => {
                assert(ledger_of(s) =~= ledger_of(s).remove(auction.highest_bid.addr@));
            },
        }
        proof {
            assert forall|j: int| 0 <= j < auction.bids@.len() implies 0 < #[trigger] auction.bids@[j].amount
                <= auction.highest_bid.amount by {
                lemma_ledger_entry(auction.bids@, j);
                lemma_ledger_entry(s, position_of(s, auction.bids@[j].addr@));
            }
        }
        let transfer = Transfer {
            to_address: auction.owner.clone(),
            amount: winner,
            denom: auction.state.token.clone(),
        };
        Ok(Response {
            action: Action::Close,
            sender: info.sender.clone(),
            sender_total: None,
            receiver: None,
            messages: vec![transfer],
        })
    } else {
        Ok(Response {
            action: Action::Close,
            sender: info.sender.clone(),
            sender_total: None,
            receiver: None,
            messages: Vec::new(),
        })
    }
}

/// After closing, hands the sender's whole escrow to `receiver`, or to the
/// sender where none is named.
pub fn retract(auction: &mut Auction, info: &MessageInfo, receiver: Option<String>) -> (r: Result<
    Response,
    ContractError,
>)
    requires
        old(auction).wf(),
    ensures
        final(auction).wf(),
        match r {
            Ok(resp) => {
                &&& retract_step(old(auction)@, info.sender@) == Ok::<AuctionModel, Failure>(final(auction)@)
                &&& retract_reply(*old(auction), *info, receiver, resp)
            },
            Err(e) => {
                &&& retract_step(old(auction)@, info.sender@) == Err::<AuctionModel, Failure>(e@)
                &&& *final(auction) == *old(auction)
            },
        },
{
    if auction.state.open {
        return Err(ContractError::EarlyRetractErr);
    }
    let ghost s = auction.bids@;
    let i = match lookup(&auction.bids, &info.sender) {
        Some(i) => i,
        None => {
            return Err(ContractError::NoBidsRetractErr);
        },
    };
    proof {
        lemma_ledger_remove(s, i as int);
    }
    let entry = auction.bids.remove(i);
    proof {
        assert forall|j: int| 0 <= j < auction.bids@.len() implies 0 < #[trigger] auction.bids@[j].amount
            <= auction.highest_bid.amount by {
            lemma_ledger_entry(auction.bids@, j);
            lemma_ledger_entry(s, position_of(s, auction.bids@[j].addr@));
        }
    }
    let to = match receiver {
        Some(to) => to,
        None => info.sender.clone(),
    };
    let transfer = Transfer {
        to_address: to.clone(),
        amount: entry.amount,
        denom: auction.state.token.clone(),
    };
    Ok(Response {
        action: Action::Close,
        sender: info.sender.clone(),
        sender_total: None,
        receiver: Some(to),
        messages: vec![transfer],
    })
}

} // verus!
