use bidding_platform::error::ContractError;
use bidding_platform::msg::{
    Bid, Coin, Decimal, ExecMsg, InstantiateMsg, MessageInfo, QueryMsg, ValueResponse,
};
use bidding_platform::state::Auction;
use bidding_platform::{execute, instantiate, query};

const ATOM: &str = "atom";
const CONTRACT: &str = "contract";

/// A host that holds one auction and the token balances of every account,
/// and carries out the transfers that the auction asks for.
struct App {
    auction: Auction,
    balances: Vec<(String, String, u128)>,
}

fn coins(amount: u128, denom: &str) -> Vec<Coin> {
    vec![Coin { denom: denom.to_string(), amount }]
}

fn info(sender: &str, funds: &[Coin]) -> MessageInfo {
    MessageInfo { sender: sender.to_string(), funds: funds.to_vec() }
}

impl App {
    fn instantiate(
        sender: &str,
        owner: Option<&str>,
        part: Decimal,
        token: String,
        initial: &[(&str, u128)],
    ) -> Result<App, ContractError> {
        let msg = InstantiateMsg { owner: owner.map(|o| o.to_string()), part, token };
        let auction = instantiate(&info(sender, &[]), msg, true)?;
        let balances = initial.iter().map(|(a, n)| (a.to_string(), ATOM.to_string(), *n)).collect();
        Ok(App { auction, balances })
    }

    fn balance(&self, addr: &str, denom: &str) -> u128 {
        self.balances
            .iter()
            .filter(|(a, d, _)| a == addr && d == denom)
            .map(|(_, _, n)| *n)
            .sum()
    }

    fn query_all_balances(&self, addr: &str) -> Vec<Coin> {
        let n = self.balance(addr, ATOM);
        if n == 0 {
            vec![]
        } else {
            coins(n, ATOM)
        }
    }

    fn move_funds(&mut self, from: &str, to: &str, denom: &str, amount: u128) {
        assert!(self.balance(from, denom) >= amount, "insufficient funds");
        for entry in self.balances.iter_mut() {
            if entry.0 == from && entry.1 == denom {
                entry.2 -= amount;
                break;
            }
        }
        if let Some(entry) = self.balances.iter_mut().find(|e| e.0 == to && e.1 == denom) {
            entry.2 += amount;
        } else {
            self.balances.push((to.to_string(), denom.to_string(), amount));
        }
    }

    fn run(&mut self, sender: &str, msg: ExecMsg, funds: &[Coin]) -> Result<(), ContractError> {
        let saved = self.balances.clone();
        for coin in funds {
            self.move_funds(sender, CONTRACT, &coin.denom, coin.amount);
        }
        match execute(&mut self.auction, &info(sender, funds), msg) {
            Ok(resp) => {
                for t in resp.messages {
                    self.move_funds(CONTRACT, &t.to_address, &t.denom, t.amount);
                }
                Ok(())
            },
            Err(e) => {
                self.balances = saved;
                Err(e)
            },
        }
    }

    fn bid(&mut self, sender: &str, funds: &[Coin]) -> Result<(), ContractError> {
        self.run(sender, ExecMsg::Bid {}, funds)
    }

    fn close(&mut self, sender: &str) -> Result<(), ContractError> {
        self.run(sender, ExecMsg::Close {}, &[])
    }

    fn retract(&mut self, sender: &str, receiver: Option<String>) -> Result<(), ContractError> {
        self.run(sender, ExecMsg::Retract { receiver }, &[])
    }

    fn query_value(&self) -> ValueResponse {
        query(&self.auction, QueryMsg::Value {})
    }
}

fn bid_of(addr: &str, amount: u128) -> Bid {
    Bid { addr: addr.to_string(), amount }
}

#[test]
fn query_value() {
    let sender = "sender";
    let app = App::instantiate(sender, None, Decimal::percent(10), ATOM.to_string(), &[]).unwrap();

    let resp = app.query_value();

    assert_eq!(resp.open, true);
    assert_eq!(resp.token, "atom");
    assert_eq!(resp.owner, sender);
    assert_eq!(resp.part, Decimal::percent(10));
    assert_eq!(resp.bids, vec![]);
    assert_eq!(resp.highest_bid, bid_of(sender, 0));
}

#[test]
fn create_contract_with_owner() {
    let sender = "sender";
    let owner = "owner";
    let app =
        App::instantiate(sender, Some(owner), Decimal::percent(10), ATOM.to_string(), &[]).unwrap();

    let resp = app.query_value();

    assert_eq!(resp.open, true);
    assert_eq!(resp.token, "atom");
    assert_eq!(resp.owner, owner);
    assert_eq!(resp.part, Decimal::percent(10));
    assert_eq!(resp.bids, vec![]);
    assert_eq!(resp.highest_bid, bid_of(sender, 0));
}

#[test]
fn bid_close_retract() {
    let sender1 = "sender1";
    let sender2 = "sender2";
    let sender3 = "sender3";
    let owner = "owner";

    let mut app = App::instantiate(
        sender1,
        Some(owner),
        Decimal::percent(10),
        ATOM.to_string(),
        &[(sender1, 20), (sender2, 10), (sender3, 5)],
    )
    .unwrap();

    app.bid(sender2, &coins(10, ATOM)).unwrap();

    let resp = app.query_value();

    assert_eq!(resp.open, true);
    assert_eq!(resp.token, "atom");
    assert_eq!(resp.owner, owner);
    assert_eq!(resp.part, Decimal::percent(10));
    assert_eq!(resp.bids, vec![bid_of(sender2, 9)]);
    assert_eq!(resp.highest_bid, bid_of(sender2, 9));
    assert_eq!(app.query_all_balances(owner), coins(1, ATOM));
    assert_eq!(app.query_all_balances(sender1), coins(20, ATOM));
    assert_eq!(app.query_all_balances(sender2), vec![]);
    assert_eq!(app.query_all_balances(CONTRACT), coins(9, ATOM));

    let err = app.bid(sender3, &coins(5, ATOM)).unwrap_err();

    assert_eq!(
        err,
        ContractError::BidLow { highest: resp.highest_bid.amount, sender_total: 0 }
    );

    app.bid(sender1, &coins(20, ATOM)).unwrap();

    let mut resp = app.query_value();

    assert_eq!(resp.open, true);
    assert_eq!(resp.token, "atom");
    assert_eq!(resp.owner, owner);
    assert_eq!(resp.part, Decimal::percent(10));
    assert_eq!(resp.bids, vec![bid_of(sender1, 18), bid_of(sender2, 9)]);
    assert_eq!(resp.highest_bid, bid_of(sender1, 18));
    assert_eq!(app.query_all_balances(owner), coins(3, ATOM));
    assert_eq!(app.query_all_balances(sender1), vec![]);
    assert_eq!(app.query_all_balances(sender2), vec![]);
    assert_eq!(app.query_all_balances(CONTRACT), coins(27, ATOM));

    app.close(owner).unwrap();
    app.retract(sender2, Some(sender1.to_string())).unwrap();

    resp = app.query_value();
    assert_eq!(resp.open, false);
    assert_eq!(resp.bids, vec![]);
    assert_eq!(app.query_all_balances(sender1), coins(9, ATOM));
    assert_eq!(app.query_all_balances(sender2), vec![]);
    assert_eq!(app.query_all_balances(CONTRACT), vec![]);
}

#[test]
fn close() {
    let sender = "sender";
    let owner = "owner";
    let mut app =
        App::instantiate(sender, Some(owner), Decimal::percent(10), ATOM.to_string(), &[]).unwrap();

    let mut resp = app.query_value();

    assert_eq!(resp.open, true);
    assert_eq!(resp.token, "atom");
    assert_eq!(resp.owner, owner);
    assert_eq!(resp.part, Decimal::percent(10));
    assert_eq!(resp.bids, vec![]);
    assert_eq!(resp.highest_bid, bid_of(sender, 0));

    let mut err = app.close(sender).unwrap_err();
    assert_eq!(err, ContractError::Unauthorized { owner: owner.to_string() });

    app.close(owner).unwrap();
    resp = app.query_value();
    assert_eq!(resp.open, false);

    err = app.close(owner).unwrap_err();
    assert_eq!(err, ContractError::BiddingAlreadyClosed {});
}

#[test]
fn close_with_bids() {
    let sender = "sender";
    let owner = "owner";
    let mut app = App::instantiate(
        sender,
        Some(owner),
        Decimal::percent(10),
        ATOM.to_string(),
        &[(sender, 10)],
    )
    .unwrap();

    let mut resp = app.query_value();

    assert_eq!(resp.open, true);
    assert_eq!(resp.token, "atom");
    assert_eq!(resp.owner, owner);
    assert_eq!(resp.part, Decimal::percent(10));
    assert_eq!(resp.bids, vec![]);
    assert_eq!(resp.highest_bid, bid_of(sender, 0));

    let mut err = app.close(sender).unwrap_err();
    assert_eq!(err, ContractError::Unauthorized { owner: owner.to_string() });

    app.bid(sender, &coins(10, ATOM)).unwrap();

    resp = app.query_value();

    assert_eq!(resp.open, true);
    assert_eq!(resp.token, "atom");
    assert_eq!(resp.owner, owner);
    assert_eq!(resp.part, Decimal::percent(10));
    assert_eq!(resp.bids, vec![bid_of(sender, 9)]);
    assert_eq!(resp.highest_bid, bid_of(sender, 9));
    assert_eq!(app.query_all_balances(owner), coins(1, ATOM));
    assert_eq!(app.query_all_balances(sender), vec![]);
    assert_eq!(app.query_all_balances(CONTRACT), coins(9, ATOM));

    app.close(owner).unwrap();

    resp = app.query_value();

    assert_eq!(resp.open, false);
    assert_eq!(resp.bids, vec![]);
    assert_eq!(app.query_all_balances(owner), coins(10, ATOM));
    assert_eq!(app.query_all_balances(CONTRACT), vec![]);

    err = app.close(owner).unwrap_err();
    assert_eq!(err, ContractError::BiddingAlreadyClosed {});
}

#[test]
fn auction_walkthrough_with_default_owner() {
    let (a, b, c) = ("alice", "bob", "carol");
    let mut app = App::instantiate(
        a,
        None,
        Decimal::percent(10),
        ATOM.to_string(),
        &[(a, 20), (b, 10), (c, 5)],
    )
    .unwrap();
    let resp = app.query_value();
    assert!(resp.open);
    assert_eq!(resp.highest_bid, bid_of(a, 0));

    app.bid(b, &coins(10, ATOM)).unwrap();
    let resp = app.query_value();
    assert_eq!(resp.bids, vec![bid_of(b, 9)]);
    assert_eq!(resp.highest_bid, bid_of(b, 9));
    assert_eq!(app.balance(a, ATOM), 21);

    let err = app.bid(c, &coins(5, ATOM)).unwrap_err();
    assert_eq!(err, ContractError::BidLow { highest: 9, sender_total: 0 });

    app.bid(a, &coins(20, ATOM)).unwrap();
    let resp = app.query_value();
    assert_eq!(resp.bids, vec![bid_of(a, 18), bid_of(b, 9)]);
    assert_eq!(resp.highest_bid, bid_of(a, 18));

    app.close(a).unwrap();
    let resp = app.query_value();
    assert_eq!(resp.bids, vec![bid_of(b, 9)]);
    assert_eq!(app.balance(a, ATOM), 1 + 2 + 18);

    app.retract(b, Some(a.to_string())).unwrap();
    let resp = app.query_value();
    assert_eq!(resp.bids, vec![]);
    assert_eq!(app.balance(a, ATOM), 30);
    assert_eq!(app.balance(CONTRACT, ATOM), 0);
}

#[test]
fn accepted_bids_add_net_amount_and_track_highest() {
    let mut app = App::instantiate(
        "owner",
        None,
        Decimal::percent(15),
        ATOM.to_string(),
        &[("x", 100), ("y", 100)],
    )
    .unwrap();
    // 15% of 7 is 1.05: the commission is 1, the net 6
    app.bid("x", &coins(7, ATOM)).unwrap();
    assert_eq!(app.query_value().bids, vec![bid_of("x", 6)]);
    assert_eq!(app.balance("owner", ATOM), 1);
    // 15% of 13 is 1.95: the commission is 1, the net 12
    app.bid("y", &coins(13, ATOM)).unwrap();
    app.bid("x", &coins(10, ATOM)).unwrap();
    let resp = app.query_value();
    assert_eq!(resp.bids, vec![bid_of("x", 6 + 9), bid_of("y", 12)]);
    assert_eq!(resp.highest_bid, bid_of("x", 15));
    let max = resp.bids.iter().map(|b| b.amount).max().unwrap();
    assert_eq!(resp.highest_bid.amount, max);
    assert_eq!(app.balance("owner", ATOM), 1 + 1 + 1);
}

#[test]
fn tie_with_highest_is_too_low() {
    let mut app = App::instantiate(
        "owner",
        None,
        Decimal::percent(0),
        ATOM.to_string(),
        &[("x", 10), ("y", 10)],
    )
    .unwrap();
    app.bid("x", &coins(5, ATOM)).unwrap();
    let err = app.bid("y", &coins(5, ATOM)).unwrap_err();
    assert_eq!(err, ContractError::BidLow { highest: 5, sender_total: 0 });
    app.bid("y", &coins(6, ATOM)).unwrap();
    let err = app.bid("x", &coins(1, ATOM)).unwrap_err();
    assert_eq!(err, ContractError::BidLow { highest: 6, sender_total: 5 });
    assert_eq!(app.query_value().highest_bid, bid_of("y", 6));
}

#[test]
fn other_denominations_count_zero() {
    let mut app =
        App::instantiate("owner", None, Decimal::percent(10), ATOM.to_string(), &[]).unwrap();
    app.balances.push(("x".to_string(), "btc".to_string(), 50));
    let err = app.bid("x", &coins(50, "btc")).unwrap_err();
    assert_eq!(err, ContractError::BidLow { highest: 0, sender_total: 0 });
    assert_eq!(app.balance("x", "btc"), 50);
    assert_eq!(app.query_value().bids, vec![]);
}

#[test]
fn only_the_token_counts_among_mixed_funds() {
    let mut app =
        App::instantiate("owner", None, Decimal::percent(10), ATOM.to_string(), &[("x", 20)])
            .unwrap();
    app.balances.push(("x".to_string(), "btc".to_string(), 50));
    let funds = vec![
        Coin { denom: "btc".to_string(), amount: 50 },
        Coin { denom: ATOM.to_string(), amount: 20 },
    ];
    app.bid("x", &funds).unwrap();
    assert_eq!(app.query_value().bids, vec![bid_of("x", 18)]);
    assert_eq!(app.balance("owner", ATOM), 2);
    assert_eq!(app.balance("owner", "btc"), 0);
}

#[test]
fn bid_after_close_is_refused() {
    let mut app =
        App::instantiate("owner", None, Decimal::percent(10), ATOM.to_string(), &[("x", 10)])
            .unwrap();
    app.close("owner").unwrap();
    assert_eq!(app.bid("x", &coins(10, ATOM)).unwrap_err(), ContractError::BiddingClosed);
    assert_eq!(app.balance("x", ATOM), 10);
}

#[test]
fn retract_before_close_is_early() {
    let mut app =
        App::instantiate("owner", None, Decimal::percent(10), ATOM.to_string(), &[("x", 10)])
            .unwrap();
    app.bid("x", &coins(10, ATOM)).unwrap();
    assert_eq!(app.retract("x", None).unwrap_err(), ContractError::EarlyRetractErr);
    assert_eq!(app.retract("z", None).unwrap_err(), ContractError::EarlyRetractErr);
    assert_eq!(app.query_value().bids, vec![bid_of("x", 9)]);
}

#[test]
fn winner_cannot_retract() {
    let mut app = App::instantiate(
        "owner",
        None,
        Decimal::percent(10),
        ATOM.to_string(),
        &[("x", 10), ("y", 20)],
    )
    .unwrap();
    app.bid("x", &coins(10, ATOM)).unwrap();
    app.bid("y", &coins(20, ATOM)).unwrap();
    app.close("owner").unwrap();
    assert_eq!(app.query_value().bids, vec![bid_of("x", 9)]);
    assert_eq!(app.retract("y", None).unwrap_err(), ContractError::NoBidsRetractErr);
    assert_eq!(app.retract("nobody", None).unwrap_err(), ContractError::NoBidsRetractErr);
    // the highest bid is left as it was
    assert_eq!(app.query_value().highest_bid, bid_of("y", 18));
}

#[test]
fn retract_without_receiver_pays_sender() {
    let mut app = App::instantiate(
        "owner",
        None,
        Decimal::percent(10),
        ATOM.to_string(),
        &[("x", 10), ("y", 20)],
    )
    .unwrap();
    app.bid("x", &coins(10, ATOM)).unwrap();
    app.bid("y", &coins(20, ATOM)).unwrap();
    app.close("owner").unwrap();
    app.retract("x", None).unwrap();
    assert_eq!(app.balance("x", ATOM), 9);
    assert_eq!(app.retract("x", None).unwrap_err(), ContractError::NoBidsRetractErr);
}

#[test]
fn close_without_bids_pays_nothing() {
    let mut app =
        App::instantiate("owner", None, Decimal::percent(10), ATOM.to_string(), &[]).unwrap();
    let mut auction = app.auction.clone();
    let resp = execute(&mut auction, &info("owner", &[]), ExecMsg::Close {}).unwrap();
    assert!(resp.messages.is_empty());
    app.close("owner").unwrap();
    assert_eq!(app.balance("owner", ATOM), 0);
}

#[test]
fn invalid_owner_is_refused() {
    let msg = InstantiateMsg {
        owner: Some("Not An Address".to_string()),
        part: Decimal::percent(10),
        token: ATOM.to_string(),
    };
    let err = instantiate(&info("sender", &[]), msg, false).unwrap_err();
    assert_eq!(err, ContractError::InvalidAddress { addr: "Not An Address".to_string() });
}

#[test]
fn bids_come_back_ascending_by_address() {
    let names = ["m", "b", "mz", "a", "z", "ma", "é", "B"];
    let initial: Vec<(&str, u128)> = names.iter().map(|n| (*n, 100)).collect();
    let mut app =
        App::instantiate("owner", None, Decimal::percent(0), ATOM.to_string(), &initial).unwrap();
    for (i, n) in names.iter().enumerate() {
        app.bid(n, &coins(i as u128 + 1, ATOM)).unwrap();
    }
    let got: Vec<String> = app.query_value().bids.into_iter().map(|b| b.addr).collect();
    let mut want: Vec<String> = names.iter().map(|n| n.to_string()).collect();
    want.sort();
    assert_eq!(got, want);
}

#[test]
fn commission_of_whole_rate_takes_everything() {
    let mut app = App::instantiate(
        "owner",
        None,
        Decimal::new(1_000_000_000_000_000_000),
        ATOM.to_string(),
        &[("x", 10)],
    )
    .unwrap();
    let err = app.bid("x", &coins(10, ATOM)).unwrap_err();
    assert_eq!(err, ContractError::BidLow { highest: 0, sender_total: 0 });
}

#[test]
fn commission_on_the_largest_amount() {
    let mut app = App::instantiate(
        "owner",
        None,
        Decimal::percent(50),
        ATOM.to_string(),
        &[("x", u128::MAX)],
    )
    .unwrap();
    app.bid("x", &coins(u128::MAX, ATOM)).unwrap();
    // half of 2^128 - 1, rounded down, is 2^127 - 1
    assert_eq!(app.balance("owner", ATOM), (1u128 << 127) - 1);
    assert_eq!(app.query_value().bids, vec![bid_of("x", 1u128 << 127)]);
}

#[test]
fn percent_is_scaled_by_ten_to_the_sixteen() {
    assert_eq!(Decimal::percent(10).atomics, 100_000_000_000_000_000);
    assert_eq!(Decimal::percent(100), Decimal::new(1_000_000_000_000_000_000));
}
