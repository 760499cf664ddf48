//! The records that the contract keeps on the ledger, and the keys under which it keeps them.

use vstd::prelude::*;

verus! {

/// An account or a contract, known by its strkey.
#[derive(Debug)]
pub struct Address {
    pub strkey: String,
}

impl View for Address {
    type V = Seq<char>;

    open spec fn view(&self) -> Seq<char> {
        self.strkey@
    }
}

impl Clone for Address {
    fn clone(&self) -> (copy: Self)
        ensures
            copy@ == self@,
            copy == *self,
    {
        Address { strkey: self.strkey.clone() }
    }
}

/// A short identifier, known by its text.
#[derive(Debug)]
pub struct Symbol {
    pub text: String,
}

impl View for Symbol {
    type V = Seq<char>;

    open spec fn view(&self) -> Seq<char> {
        self.text@
    }
}

impl Symbol {
    /// The symbol that reads `text`.
    pub fn new(text: &str) -> (symbol: Self)
        ensures
            symbol@ == text@,
            symbol.text@ == text@,
    {
        Symbol { text: text.to_owned() }
    }

    /// Whether two symbols read the same.
    pub fn same_as(&self, other: &Symbol) -> (same: bool)
        ensures
            same == (self@ == other@),
            same == (self.text@ == other.text@),
    {
        self.text == other.text
    }
}

impl Clone for Symbol {
    fn clone(&self) -> (copy: Self)
        ensures
            copy@ == self@,
            copy == *self,
    {
        Symbol { text: self.text.clone() }
    }
}

/// What each symbol of a list reads.
pub open spec fn texts(symbols: Seq<Symbol>) -> Seq<Seq<char>> {
    symbols.map_values(|symbol: Symbol| symbol@)
}

/// The strkey of each address of a list.
pub open spec fn strkeys(addresses: Seq<Address>) -> Seq<Seq<char>> {
    addresses.map_values(|address: Address| address@)
}

/// The part of the platform's configuration that moves stakes: the token they are held in.
#[derive(Debug)]
pub struct Config {
    pub xlm_token: Address,
}

/// A market, as far as taking predictions depends on it. Its entry on the ledger may hold more
/// than this.
#[derive(Debug)]
pub struct Market {
    pub outcome_options: Vec<Symbol>,
    pub end_time: u64,
    pub min_stake: i128,
    pub max_stake: i128,
    pub total_pool: i128,
    pub participant_count: u32,
}

/// The mathematical content of a [`Market`].
pub struct MarketView {
    pub outcome_options: Seq<Seq<char>>,
    pub end_time: u64,
    pub min_stake: i128,
    pub max_stake: i128,
    pub total_pool: i128,
    pub participant_count: u32,
}

impl View for Market {
    type V = MarketView;

    open spec fn view(&self) -> MarketView {
        MarketView {
            outcome_options: texts(self.outcome_options@),
            end_time: self.end_time,
            min_stake: self.min_stake,
            max_stake: self.max_stake,
            total_pool: self.total_pool,
            participant_count: self.participant_count,
        }
    }
}

/// One predictor's stake on one outcome of one market.
#[derive(Debug)]
pub struct Prediction {
    pub market_id: u64,
    pub predictor: Address,
    pub chosen_outcome: Symbol,
    pub stake_amount: i128,
    pub submitted_at: u64,
    pub payout_claimed: bool,
    pub payout_amount: i128,
}

/// The mathematical content of a [`Prediction`].
pub struct PredictionView {
    pub market_id: u64,
    pub predictor: Seq<char>,
    pub chosen_outcome: Seq<char>,
    pub stake_amount: i128,
    pub submitted_at: u64,
    pub payout_claimed: bool,
    pub payout_amount: i128,
}

impl View for Prediction {
    type V = PredictionView;

    open spec fn view(&self) -> PredictionView {
        PredictionView {
            market_id: self.market_id,
            predictor: self.predictor@,
            chosen_outcome: self.chosen_outcome@,
            stake_amount: self.stake_amount,
            submitted_at: self.submitted_at,
            payout_claimed: self.payout_claimed,
            payout_amount: self.payout_amount,
        }
    }
}

impl PredictionView {
    /// A prediction that was just made: nothing has been paid out on it.
    pub open spec fn fresh(
        market_id: u64,
        predictor: Seq<char>,
        chosen_outcome: Seq<char>,
        stake_amount: i128,
        now: u64,
    ) -> PredictionView {
        PredictionView {
            market_id,
            predictor,
            chosen_outcome,
            stake_amount,
            submitted_at: now,
            payout_claimed: false,
            payout_amount: 0,
        }
    }
}

impl Prediction {
    /// A prediction made at `now`, with nothing paid out on it.
    pub fn new(
        market_id: u64,
        predictor: Address,
        chosen_outcome: Symbol,
        stake_amount: i128,
        now: u64,
    ) -> (prediction: Self)
        ensures
            prediction@ == PredictionView::fresh(
                market_id,
                predictor@,
                chosen_outcome@,
                stake_amount,
                now,
            ),
            prediction == (Prediction {
                market_id,
                predictor,
                chosen_outcome,
                stake_amount,
                submitted_at: now,
                payout_claimed: false,
                payout_amount: 0,
            }),
    {
        Prediction {
            market_id,
            predictor,
            chosen_outcome,
            stake_amount,
            submitted_at: now,
            payout_claimed: false,
            payout_amount: 0,
        }
    }
}

/// What the platform keeps about a user across markets, as far as predictions change it. The
/// entry on the ledger may hold more than this.
#[derive(Debug)]
pub struct UserProfile {
    pub address: Address,
    pub total_predictions: u32,
    pub total_staked: i128,
    pub joined_at: u64,
}

/// The mathematical content of a [`UserProfile`].
pub struct UserProfileView {
    pub address: Seq<char>,
    pub total_predictions: u32,
    pub total_staked: i128,
    pub joined_at: u64,
}

impl View for UserProfile {
    type V = UserProfileView;

    open spec fn view(&self) -> UserProfileView {
        UserProfileView {
            address: self.address@,
            total_predictions: self.total_predictions,
            total_staked: self.total_staked,
            joined_at: self.joined_at,
        }
    }
}

impl UserProfileView {
    /// The profile of a user who has done nothing yet.
    pub open spec fn fresh(address: Seq<char>, now: u64) -> UserProfileView {
        UserProfileView { address, total_predictions: 0, total_staked: 0, joined_at: now }
    }
}

impl UserProfile {
    /// The profile of a user who joins at `now` and has done nothing yet.
    pub fn new(address: Address, now: u64) -> (profile: Self)
        ensures
            profile@ == UserProfileView::fresh(address@, now),
            profile == (UserProfile {
                address,
                total_predictions: 0,
                total_staked: 0,
                joined_at: now,
            }),
    {
        UserProfile { address, total_predictions: 0, total_staked: 0, joined_at: now }
    }
}

/// The key of a persistent ledger entry of the contract.
#[derive(Debug)]
pub enum DataKey {
    Market(u64),
    Prediction(u64, Address),
    PredictorList(u64),
    User(Address),
}

/// The mathematical content of a [`DataKey`].
pub enum DataKeyView {
    Market(u64),
    Prediction(u64, Seq<char>),
    PredictorList(u64),
    User(Seq<char>),
}

impl View for DataKey {
    type V = DataKeyView;

    open spec fn view(&self) -> DataKeyView {
        match *self {
            DataKey::Market(market_id) => DataKeyView::Market(market_id),
            DataKey::Prediction(market_id, predictor) => DataKeyView::Prediction(
                market_id,
                predictor@,
            ),
            DataKey::PredictorList(market_id) => DataKeyView::PredictorList(market_id),
            DataKey::User(address) => DataKeyView::User(address@),
        }
    }
}

/// The value of a persistent ledger entry of the contract.
#[derive(Debug)]
pub enum Record {
    /// A market with new totals. Only `total_pool` and `participant_count` are written: the
    /// other fields are as they were read, and all else that the market's entry holds stays.
    Market(Market),
    Prediction(Prediction),
    PredictorList(Vec<Address>),
    /// A profile with new totals. Where the user had one, only `total_predictions` and
    /// `total_staked` are written: the other fields are as they were read, and all else that the
    /// profile's entry holds stays. Where the user had none, the entry is created from this.
    User(UserProfile),
}

/// The mathematical content of a [`Record`].
pub enum RecordView {
    Market(MarketView),
    Prediction(PredictionView),
    PredictorList(Seq<Seq<char>>),
    User(UserProfileView),
}

impl View for Record {
    type V = RecordView;

    open spec fn view(&self) -> RecordView {
        match *self {
            Record::Market(market) => RecordView::Market(market@),
            Record::Prediction(prediction) => RecordView::Prediction(prediction@),
            Record::PredictorList(predictors) => RecordView::PredictorList(strkeys(predictors@)),
            Record::User(profile) => RecordView::User(profile@),
        }
    }
}

} // verus!
