use vstd::prelude::*;

use crate::error::Failure;
use crate::msg::{Coin, DECIMAL_FRACTIONAL};
use crate::state::{
    attached, bid_step, close_step, commission_of, net_of, retract_step, AuctionModel,
};

verus! {

/// The commission at a rate of at most one never exceeds the amount.
pub proof fn lemma_commission_bounded(amount: nat, part: nat)
    requires
        part <= DECIMAL_FRACTIONAL,
    ensures
        commission_of(amount, part) <= amount,
{
    let d = DECIMAL_FRACTIONAL as int;
    assert(amount * part <= amount * d) by (nonlinear_arith)
        requires part <= d, amount >= 0;
    vstd::arithmetic::div_mod::lemma_div_is_ordered((amount * part) as int, amount * d, d);
    vstd::arithmetic::div_mod::lemma_div_multiples_vanish(amount as int, d);
    assert(amount * d == d * amount) by (nonlinear_arith);
}

/// An accepted bid sets the bidder's escrow to its prior escrow plus the
/// attached amount of the token less the commission (rounded down), makes it
/// the highest bid, and leaves the highest bid equal to the largest escrow.
pub proof fn lemma_bid_total(m: AuctionModel, sender: Seq<char>, funds: Seq<Coin>)
    requires
        m.inv(),
        bid_step(m, sender, funds) is Ok,
    ensures
        ({
            let n = bid_step(m, sender, funds)->Ok_0;
            let amount = attached(funds, m.token);
            &&& n.bids.contains_key(sender)
            &&& n.bids[sender] == m.total_of(sender) + amount - commission_of(amount, m.part)
            &&& n.highest == (sender, n.bids[sender])
            &&& forall|k: Seq<char>| #[trigger] n.bids.contains_key(k) ==> n.bids[k] <= n.highest.1
            &&& n.inv()
        }),
{
    lemma_commission_bounded(attached(funds, m.token), m.part);
}

/// A bid while bidding is open is accepted exactly when the bidder's new
/// total strictly exceeds the highest bid; otherwise, a tie included, it is
/// refused as too low.
pub proof fn lemma_bid_accepted_iff_exceeds(m: AuctionModel, sender: Seq<char>, funds: Seq<Coin>)
    requires
        m.open,
    ensures
        bid_step(m, sender, funds) is Ok <==> m.total_of(sender) + net_of(funds, m.token, m.part)
            > m.highest.1,
        m.total_of(sender) + net_of(funds, m.token, m.part) <= m.highest.1 ==> bid_step(
            m,
            sender,
            funds,
        ) == Err::<AuctionModel, Failure>(
            Failure::BidLow { highest: m.highest.1, sender_total: m.total_of(sender) },
        ),
{
}

/// Funds in other denominations than the token add nothing and are charged
/// no commission.
pub proof fn lemma_other_denominations_count_zero(funds: Seq<Coin>, token: Seq<char>, part: nat)
    requires
        forall|i: int| 0 <= i < funds.len() ==> #[trigger] funds[i].denom@ != token,
    ensures
        attached(funds, token) == 0,
        commission_of(attached(funds, token), part) == 0,
        net_of(funds, token, part) == 0,
    decreases funds.len(),
{
    if funds.len() > 0 {
        let rest = funds.drop_last();
        assert(funds.last().denom@ != token);
        assert forall|i: int| 0 <= i < rest.len() implies #[trigger] rest[i].denom@ != token by {
            assert(rest[i] == funds[i]);
        }
        lemma_other_denominations_count_zero(rest, token, part);
    }
    assert(0 * part == 0);
}

/// Closing is final: afterwards bidding is closed, a second close is refused
/// as already closed, and every bid is refused.
pub proof fn lemma_close_is_final(
    m: AuctionModel,
    sender: Seq<char>,
    again: Seq<char>,
    bidder: Seq<char>,
    funds: Seq<Coin>,
)
    requires
        close_step(m, sender) is Ok,
    ensures
        ({
            let n = close_step(m, sender)->Ok_0;
            &&& !n.open
            &&& close_step(n, again) == Err::<AuctionModel, Failure>(Failure::BiddingAlreadyClosed)
            &&& bid_step(n, bidder, funds) == Err::<AuctionModel, Failure>(Failure::BiddingClosed)
        }),
{
}

/// Closing consumes the winner's escrow: the winner has no entry left and
/// cannot retract.
pub proof fn lemma_winner_cannot_retract(m: AuctionModel, sender: Seq<char>)
    requires
        m.inv(),
        m.highest.1 > 0,
        close_step(m, sender) is Ok,
    ensures
        ({
            let n = close_step(m, sender)->Ok_0;
            &&& !n.bids.contains_key(m.highest.0)
            &&& retract_step(n, m.highest.0) == Err::<AuctionModel, Failure>(
                Failure::NoBidsRetractErr,
            )
        }),
{
}

/// No one can retract while bidding is open, whatever their escrow.
pub proof fn lemma_no_retract_while_open(m: AuctionModel, sender: Seq<char>)
    requires
        m.open,
    ensures
        retract_step(m, sender) == Err::<AuctionModel, Failure>(Failure::EarlyRetractErr),
{
}

/// Closing and retracting keep the invariant.
pub proof fn lemma_close_retract_keep_inv(m: AuctionModel, sender: Seq<char>)
    requires
        m.inv(),
    ensures
        close_step(m, sender) is Ok ==> close_step(m, sender)->Ok_0.inv(),
        retract_step(m, sender) is Ok ==> retract_step(m, sender)->Ok_0.inv(),
{
}

} // verus!
