use vstd::prelude::*;

use crate::error::Failure;
use crate::msg::{Bid, Coin, Decimal, DECIMAL_FRACTIONAL};
use crate::order::addr_lt;

verus! {

/// The auction's own parameters.
#[derive(Debug, Clone, PartialEq, Eq)]
pub struct State {
    pub open: bool,
    pub token: String,
    pub part: Decimal,
}

/// The four records of one auction: its parameters, its owner, the escrow of
/// every bidder (ascending by address) and the highest bid.
#[derive(Debug, Clone, PartialEq, Eq)]
pub struct Auction {
    pub state: State,
    pub owner: String,
    pub bids: Vec<Bid>,
    pub highest_bid: Bid,
}

/// An auction as a mathematical value.
pub struct AuctionModel {
    pub open: bool,
    pub token: Seq<char>,
    /// The commission rate, in units of `10^-18`.
    pub part: nat,
    pub owner: Seq<char>,
    /// The escrow of each bidder.
    pub bids: Map<Seq<char>, nat>,
    /// The address and amount of the highest bid.
    pub highest: (Seq<char>, nat),
}

/// Some position of an entry for `k`.
pub open spec fn position_of(s: Seq<Bid>, k: Seq<char>) -> int {
    choose|i: int| 0 <= i < s.len() && s[i].addr@ == k
}

/// The escrow ledger that a sequence of entries with distinct addresses describes.
pub open spec fn ledger_of(s: Seq<Bid>) -> Map<Seq<char>, nat> {
    Map::new(
        |k: Seq<char>| exists|i: int| 0 <= i < s.len() && s[i].addr@ == k,
        |k: Seq<char>| s[position_of(s, k)].amount as nat,
    )
}

/// Entries strictly ascending by address.
pub open spec fn ascending(s: Seq<Bid>) -> bool {
    forall|i: int, j: int| 0 <= i < j < s.len() ==> addr_lt(#[trigger] s[i].addr@, #[trigger] s[j].addr@)
}

/// The commission on `amount` at `part` (in units of `10^-18`), rounded down.
pub open spec fn commission_of(amount: nat, part: nat) -> nat {
    amount * part / DECIMAL_FRACTIONAL as nat
}

/// The amount of `token` among the funds: that of the last coin of that
/// denomination, or zero where there is none.
pub open spec fn attached(funds: Seq<Coin>, token: Seq<char>) -> nat
    decreases funds.len(),
{
    if funds.len() == 0 {
        0
    } else if funds.last().denom@ == token {
        funds.last().amount as nat
    } else {
        attached(funds.drop_last(), token)
    }
}

/// What the funds add to a bidder's escrow once the commission is taken.
pub open spec fn net_of(funds: Seq<Coin>, token: Seq<char>, part: nat) -> nat {
    let amount = attached(funds, token);
    (amount - commission_of(amount, part)) as nat
}

impl AuctionModel {
    /// What the bidder holds in escrow, zero where nothing.
    pub open spec fn total_of(self, bidder: Seq<char>) -> nat {
        if self.bids.contains_key(bidder) {
            self.bids[bidder]
        } else {
            0
        }
    }

    /// The rate is a fraction; every escrow is positive and none exceeds the
    /// highest bid; while bidding is open, a positive highest bid is the
    /// escrow of its bidder.
    pub open spec fn inv(self) -> bool {
        &&& self.part <= DECIMAL_FRACTIONAL
        &&& forall|k: Seq<char>| #[trigger]
            self.bids.contains_key(k) ==> 0 < self.bids[k] <= self.highest.1
        &&& self.open && self.highest.1 > 0 ==> self.bids.contains_key(self.highest.0)
            && self.bids[self.highest.0] == self.highest.1
    }
}

/// The outcome of a bid by `sender` with `funds`.
pub open spec fn bid_step(m: AuctionModel, sender: Seq<char>, funds: Seq<Coin>) -> Result<
    AuctionModel,
    Failure,
> {
    let prior = m.total_of(sender);
    let total = prior + net_of(funds, m.token, m.part);
    if !m.open {
        Err(Failure::BiddingClosed)
    } else if total <= m.highest.1 {
        Err(Failure::BidLow { highest: m.highest.1, sender_total: prior })
    } else {
        Ok(AuctionModel { bids: m.bids.insert(sender, total), highest: (sender, total), ..m })
    }
}

/// The outcome of a close by `sender`.
pub open spec fn close_step(m: AuctionModel, sender: Seq<char>) -> Result<AuctionModel, Failure> {
    if !m.open {
        Err(Failure::BiddingAlreadyClosed)
    } else if sender != m.owner {
        Err(Failure::Unauthorized { owner: m.owner })
    } else if m.highest.1 > 0 {
        Ok(AuctionModel { open: false, bids: m.bids.remove(m.highest.0), ..m })
    } else {
        Ok(AuctionModel { open: false, ..m })
    }
}

/// The outcome of a retraction by `sender`.
pub open spec fn retract_step(m: AuctionModel, sender: Seq<char>) -> Result<AuctionModel, Failure> {
    if m.open {
        Err(Failure::EarlyRetractErr)
    } else if !m.bids.contains_key(sender) {
        Err(Failure::NoBidsRetractErr)
    } else {
        Ok(AuctionModel { bids: m.bids.remove(sender), ..m })
    }
}

impl View for Auction {
    type V = AuctionModel;

    open spec fn view(&self) -> AuctionModel {
        AuctionModel {
            open: self.state.open,
            token: self.state.token@,
            part: self.state.part.atomics as nat,
            owner: self.owner@,
            bids: ledger_of(self.bids@),
            highest: (self.highest_bid.addr@, self.highest_bid.amount as nat),
        }
    }
}

impl Auction {
    /// The rate is a fraction; entries ascend by address, each positive and
    /// none above the highest bid; while bidding is open, a positive highest
    /// bid is an entry.
    pub open spec fn wf(&self) -> bool {
        &&& self.state.part.is_fraction()
        &&& ascending(self.bids@)
        &&& forall|i: int|
            0 <= i < self.bids@.len() ==> 0 < #[trigger] self.bids@[i].amount
                <= self.highest_bid.amount
        &&& self.state.open && self.highest_bid.amount > 0 ==> exists|i: int|
            0 <= i < self.bids@.len() && #[trigger] self.bids@[i].addr@ == self.highest_bid.addr@
                && self.bids@[i].amount == self.highest_bid.amount
    }
}

/// Ascending entries have distinct addresses.
pub proof fn lemma_ascending_distinct(s: Seq<Bid>, i: int, j: int)
    requires
        ascending(s),
        0 <= i < s.len(),
        0 <= j < s.len(),
        i != j,
    ensures
        s[i].addr@ != s[j].addr@,
{
    if i < j {
        assert(addr_lt(s[i].addr@, s[j].addr@));
    } else {
        assert(addr_lt(s[j].addr@, s[i].addr@));
    }
    crate::order::lemma_bytes_lt_irreflexive(crate::order::key_of(s[i].addr@));
}

/// In ascending entries, the ledger maps each entry's address to its amount.
pub proof fn lemma_ledger_entry(s: Seq<Bid>, i: int)
    requires
        ascending(s),
        0 <= i < s.len(),
    ensures
        ledger_of(s).contains_key(s[i].addr@),
        ledger_of(s)[s[i].addr@] == s[i].amount as nat,
{
    let k = s[i].addr@;
    assert(exists|j: int| 0 <= j < s.len() && s[j].addr@ == k);
    let j = position_of(s, k);
    if j != i {
        lemma_ascending_distinct(s, i, j);
    }
}

/// An address that no entry holds is not in the ledger.
pub proof fn lemma_ledger_absent(s: Seq<Bid>, k: Seq<char>)
    requires
        forall|i: int| 0 <= i < s.len() ==> #[trigger] s[i].addr@ != k,
    ensures
        !ledger_of(s).contains_key(k),
{
}

/// A ledger is that of ascending entries when each entry is in it with its
/// amount and each of its addresses has an entry.
pub proof fn lemma_ledger_ext(t: Seq<Bid>, m: Map<Seq<char>, nat>)
    requires
        ascending(t),
        forall|i: int|
            0 <= i < t.len() ==> m.contains_key(#[trigger] t[i].addr@) && m[t[i].addr@]
                == t[i].amount as nat,
        forall|k: Seq<char>| #[trigger]
            m.contains_key(k) ==> exists|i: int| 0 <= i < t.len() && t[i].addr@ == k,
    ensures
        ledger_of(t) == m,
{
    assert forall|k: Seq<char>| #[trigger] ledger_of(t).contains_key(k) implies m.contains_key(k)
        && ledger_of(t)[k] == m[k] by {
        let i = position_of(t, k);
        lemma_ledger_entry(t, i);
    }
    assert(ledger_of(t) =~= m);
}

/// Inserting an entry for a new address adds it to the ledger.
pub proof fn lemma_ledger_insert(s: Seq<Bid>, p: int, b: Bid)
    requires
        ascending(s),
        ascending(s.insert(p, b)),
        0 <= p <= s.len(),
    ensures
        ledger_of(s.insert(p, b)) == ledger_of(s).insert(b.addr@, b.amount as nat),
{
    let t = s.insert(p, b);
    let m = ledger_of(s).insert(b.addr@, b.amount as nat);
    assert forall|i: int| 0 <= i < t.len() implies m.contains_key(#[trigger] t[i].addr@) && m[t[i].addr@]
        == t[i].amount as nat by {
        if i < p {
            lemma_ledger_entry(s, i);
            lemma_ascending_distinct(t, i, p);
        } else if i > p {
            lemma_ledger_entry(s, i - 1);
            lemma_ascending_distinct(t, i, p);
        }
    }
    assert forall|k: Seq<char>| #[trigger] m.contains_key(k) implies exists|i: int|
        0 <= i < t.len() && t[i].addr@ == k by {
        if k == b.addr@ {
            assert(t[p].addr@ == k);
        } else {
            let j = position_of(s, k);
            if j < p {
                assert(t[j].addr@ == k);
            } else {
                assert(t[j + 1].addr@ == k);
            }
        }
    }
    lemma_ledger_ext(t, m);
}

/// Replacing the amount of an entry replaces it in the ledger.
pub proof fn lemma_ledger_update(s: Seq<Bid>, i: int, b: Bid)
    requires
        ascending(s),
        0 <= i < s.len(),
        b.addr@ == s[i].addr@,
    ensures
        ascending(s.update(i, b)),
        ledger_of(s.update(i, b)) == ledger_of(s).insert(b.addr@, b.amount as nat),
{
    let t = s.update(i, b);
    let m = ledger_of(s).insert(b.addr@, b.amount as nat);
    assert forall|x: int, y: int| 0 <= x < y < t.len() implies addr_lt(
        #[trigger] t[x].addr@,
        #[trigger] t[y].addr@,
    ) by {
        assert(addr_lt(s[x].addr@, s[y].addr@));
    }
    assert forall|j: int| 0 <= j < t.len() implies m.contains_key(#[trigger] t[j].addr@) && m[t[j].addr@]
        == t[j].amount as nat by {
        if j != i {
            lemma_ledger_entry(s, j);
            lemma_ascending_distinct(s, i, j);
        }
    }
    assert forall|k: Seq<char>| #[trigger] m.contains_key(k) implies exists|j: int|
        0 <= j < t.len() && t[j].addr@ == k by {
        if k == b.addr@ {
            assert(t[i].addr@ == k);
        } else {
            let j = position_of(s, k);
            assert(t[j].addr@ == k);
        }
    }
    lemma_ledger_ext(t, m);
}

/// Removing an entry removes its address from the ledger.
pub proof fn lemma_ledger_remove(s: Seq<Bid>, i: int)
    requires
        ascending(s),
        0 <= i < s.len(),
    ensures
        ascending(s.remove(i)),
        ledger_of(s.remove(i)) == ledger_of(s).remove(s[i].addr@),
{
    let t = s.remove(i);
    let m = ledger_of(s).remove(s[i].addr@);
    assert forall|x: int, y: int| 0 <= x < y < t.len() implies addr_lt(
        #[trigger] t[x].addr@,
        #[trigger] t[y].addr@,
    ) by {
        let x0 = if x < i { x } else { x + 1 };
        let y0 = if y < i { y } else { y + 1 };
        assert(addr_lt(s[x0].addr@, s[y0].addr@));
    }
    assert forall|j: int| 0 <= j < t.len() implies m.contains_key(#[trigger] t[j].addr@) && m[t[j].addr@]
        == t[j].amount as nat by {
        let j0 = if j < i { j } else { j + 1 };
        lemma_ledger_entry(s, j0);
        lemma_ascending_distinct(s, i, j0);
    }
    assert forall|k: Seq<char>| #[trigger] m.contains_key(k) implies exists|j: int|
        0 <= j < t.len() && t[j].addr@ == k by {
        let j = position_of(s, k);
        if j < i {
            assert(t[j].addr@ == k);
        } else {
            assert(j != i);
            assert(t[j - 1].addr@ == k);
        }
    }
    lemma_ledger_ext(t, m);
}

/// The well-formed auction's model satisfies the model's invariant.
pub proof fn lemma_wf_inv(a: &Auction)
    requires
        a.wf(),
    ensures
        a@.inv(),
{
    let s = a.bids@;
    assert forall|k: Seq<char>| #[trigger] a@.bids.contains_key(k) implies 0 < a@.bids[k]
        <= a@.highest.1 by {
        lemma_ledger_entry(s, position_of(s, k));
    }
    if a.state.open && a.highest_bid.amount > 0 {
        let i = choose|i: int|
            0 <= i < s.len() && #[trigger] s[i].addr@ == a.highest_bid.addr@ && s[i].amount
                == a.highest_bid.amount;
        lemma_ledger_entry(s, i);
    }
}

} // verus!
