use vstd::prelude::*;

use crate::msg::{Bid, ValueResponse};
use crate::state::{ascending, lemma_ledger_entry, lemma_ledger_ext, ledger_of, Auction};

verus! {

/// The response holds every field of the auction, entry for entry; for a
/// well-formed auction its entries are the ledger, ascending by address.
pub open spec fn reports(auction: Auction, r: ValueResponse) -> bool {
    &&& r.open == auction.state.open
    &&& r.token@ == auction.state.token@
    &&& r.owner@ == auction.owner@
    &&& r.part == auction.state.part
    &&& r.bids@.len() == auction.bids@.len()
    &&& forall|i: int|
        0 <= i < r.bids@.len() ==> (#[trigger] r.bids@[i]).addr@ == auction.bids@[i].addr@
            && r.bids@[i].amount == auction.bids@[i].amount
    &&& r.highest_bid.addr@ == auction.highest_bid.addr@
    &&& r.highest_bid.amount == auction.highest_bid.amount
    &&& auction.wf() ==> ascending(r.bids@) && ledger_of(r.bids@) == auction@.bids
}

/// Every field of the auction, with the escrow ledger ascending by address.
pub fn value(auction: &Auction) -> (r: ValueResponse)
    ensures
        reports(*auction, r),
{
    let mut bids: Vec<Bid> = Vec::new();
    let mut i: usize = 0;
    while i < auction.bids.len()
        invariant
            i <= auction.bids@.len(),
            bids@.len() == i,
            forall|j: int|
                0 <= j < i ==> (#[trigger] bids@[j]).addr@ == auction.bids@[j].addr@
                    && bids@[j].amount == auction.bids@[j].amount,
        decreases auction.bids@.len() - i,
    {
        let entry = Bid { addr: auction.bids[i].addr.clone(), amount: auction.bids[i].amount };
        bids.push(entry);
        i = i + 1;
    }
    proof {
        if auction.wf() {
            let s = auction.bids@;
            let t = bids@;
            assert forall|x: int, y: int| 0 <= x < y < t.len() implies crate::order::addr_lt(
                #[trigger] t[x].addr@,
                #[trigger] t[y].addr@,
            ) by {
                assert(crate::order::addr_lt(s[x].addr@, s[y].addr@));
            }
            assert forall|j: int| 0 <= j < t.len() implies ledger_of(s).contains_key(
                #[trigger] t[j].addr@,
            ) && ledger_of(s)[t[j].addr@] == t[j].amount as nat by {
                lemma_ledger_entry(s, j);
            }
            assert forall|k: Seq<char>| #[trigger] ledger_of(s).contains_key(k) implies exists|j: int|
                0 <= j < t.len() && t[j].addr@ == k by {
                assert(t[crate::state::position_of(s, k)].addr@ == k);
            }
            lemma_ledger_ext(t, ledger_of(s));
        }
    }
    ValueResponse {
        open: auction.state.open,
        token: auction.state.token.clone(),
        owner: auction.owner.clone(),
        part: auction.state.part,
        bids,
        highest_bid: Bid {
            addr: auction.highest_bid.addr.clone(),
            amount: auction.highest_bid.amount,
        },
    }
}

} // verus!
