use vstd::prelude::*;

verus! {

/// Number of atomic units in one whole of a `Decimal`.
pub const DECIMAL_FRACTIONAL: u128 = 1_000_000_000_000_000_000;

/// A non-negative fixed-point number with 18 decimal places,
/// held as its count of atomic units (`atomics / 10^18`).
#[derive(Debug, Clone, Copy, PartialEq, Eq)]
pub struct Decimal {
    pub atomics: u128,
}

impl Decimal {
    /// `x` percent.
    pub fn percent(x: u64) -> (r: Decimal)
        ensures
            r.atomics == x * 10_000_000_000_000_000,
    {
        Decimal { atomics: x as u128 * 10_000_000_000_000_000 }
    }

    /// The fraction given by its atomic units.
    pub fn new(atomics: u128) -> (r: Decimal)
        ensures
            r.atomics == atomics,
    {
        Decimal { atomics }
    }

    /// At most one whole.
    pub open spec fn is_fraction(self) -> bool {
        self.atomics <= DECIMAL_FRACTIONAL
    }
}

/// Read-only requests.
#[derive(Debug, Clone, PartialEq, Eq)]
pub enum QueryMsg {
    Value {},
}

/// Parameters of a new auction.
#[derive(Debug, Clone, PartialEq, Eq)]
pub struct InstantiateMsg {
    /// The owner, when it is not the instantiating caller.
    pub owner: Option<String>,
    /// The commission taken from every contribution.
    pub part: Decimal,
    /// The one denomination that counts as a bid.
    pub token: String,
}

/// State-changing requests.
#[derive(Debug, Clone, PartialEq, Eq)]
pub enum ExecMsg {
    Bid {},
    Close {},
    Retract { receiver: Option<String> },
}

/// A bidder and an amount.
#[derive(Debug, Clone, PartialEq, Eq)]
pub struct Bid {
    pub addr: String,
    pub amount: u128,
}

/// Everything the auction records.
#[derive(Debug, Clone, PartialEq, Eq)]
pub struct ValueResponse {
    pub open: bool,
    pub token: String,
    pub owner: String,
    pub part: Decimal,
    /// Every escrow, ascending by address.
    pub bids: Vec<Bid>,
    pub highest_bid: Bid,
}

/// An amount of one denomination.
#[derive(Debug, Clone, PartialEq, Eq)]
pub struct Coin {
    pub denom: String,
    pub amount: u128,
}

/// The authenticated caller of a request and the funds it attached.
#[derive(Debug, Clone, PartialEq, Eq)]
pub struct MessageInfo {
    pub sender: String,
    pub funds: Vec<Coin>,
}

/// The label of a response.
#[derive(Debug, Clone, Copy, PartialEq, Eq)]
pub enum Action {
    Bid,
    Close,
}

/// An instruction to the host to move funds out of escrow.
#[derive(Debug, Clone, PartialEq, Eq)]
pub struct Transfer {
    pub to_address: String,
    pub amount: u128,
    pub denom: String,
}

/// What a successful request reports, and the transfers it asks for.
#[derive(Debug, Clone, PartialEq, Eq)]
pub struct Response {
    pub action: Action,
    pub sender: String,
    pub sender_total: Option<u128>,
    pub receiver: Option<String>,
    pub messages: Vec<Transfer>,
}

} // verus!
