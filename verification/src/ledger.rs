//! What the effects of an invocation do to a ledger, and when the books on it balance.

use vstd::prelude::*;

use crate::errors::InsightArenaError;
use crate::host::{Attempt, Host, Outcome};
use crate::invocation::{EffectView, InvocationView, PredictionSubmittedView, TransferView};
use crate::prediction::{Request, SnapshotView};
use crate::storage_types::{
    DataKeyView, MarketView, PredictionView, RecordView, UserProfileView,
};

verus! {

/// The contract's entries on the ledger, their lifetimes, the token balances, and the events
/// published so far.
///
/// A balance is known by its token and its holder; where none is written down it is zero.
/// `live_until` gives the last ledger of each entry. An entry past it is archived, and is
/// restored before an invocation can reach it.
#[verifier::ext_equal]
pub struct Ledger {
    pub markets: Map<u64, MarketView>,
    pub predictions: Map<(u64, Seq<char>), PredictionView>,
    pub predictors: Map<u64, Seq<Seq<char>>>,
    pub profiles: Map<Seq<char>, UserProfileView>,
    pub live_until: Map<DataKeyView, u32>,
    pub balances: Map<(Seq<char>, Seq<char>), int>,
    pub events: Seq<PredictionSubmittedView>,
}

/// The value under a key, if there is one.
pub open spec fn lookup<K, V>(entries: Map<K, V>, key: K) -> Option<V> {
    if entries.dom().contains(key) {
        Some(entries[key])
    } else {
        None
    }
}

impl Ledger {
    /// How much of `token` a holder has.
    pub open spec fn balance(self, token: Seq<char>, holder: Seq<char>) -> int {
        match lookup(self.balances, (token, holder)) {
            Some(amount) => amount,
            None => 0,
        }
    }

    /// The predictors of a market in the order in which they joined it.
    pub open spec fn predictors_of(self, market_id: u64) -> Seq<Seq<char>> {
        match lookup(self.predictors, market_id) {
            Some(predictors) => predictors,
            None => seq![],
        }
    }

    /// What is read under a key.
    pub open spec fn record_at(self, key: DataKeyView) -> Option<RecordView> {
        match key {
            DataKeyView::Market(market_id) => match lookup(self.markets, market_id) {
                Some(market) => Some(RecordView::Market(market)),
                None => None,
            },
            DataKeyView::Prediction(market_id, predictor) => match lookup(
                self.predictions,
                (market_id, predictor),
            ) {
                Some(prediction) => Some(RecordView::Prediction(prediction)),
                None => None,
            },
            DataKeyView::PredictorList(market_id) => match lookup(self.predictors, market_id) {
                Some(predictors) => Some(RecordView::PredictorList(predictors)),
                None => None,
            },
            DataKeyView::User(address) => match lookup(self.profiles, address) {
                Some(profile) => Some(RecordView::User(profile)),
                None => None,
            },
        }
    }

    /// What a submission by `predictor` on `market_id` finds under the keys that it reads.
    pub open spec fn snapshot(self, market_id: u64, predictor: Seq<char>) -> SnapshotView {
        SnapshotView {
            market: match self.record_at(DataKeyView::Market(market_id)) {
                Some(RecordView::Market(market)) => Some(market),
                _ => None,
            },
            already_predicted: self.record_at(
                DataKeyView::Prediction(market_id, predictor),
            ) is Some,
            predictors: match self.record_at(DataKeyView::PredictorList(market_id)) {
                Some(RecordView::PredictorList(predictors)) => Some(predictors),
                _ => None,
            },
            profile: match self.record_at(DataKeyView::User(predictor)) {
                Some(RecordView::User(profile)) => Some(profile),
                _ => None,
            },
        }
    }

    /// A balance changed by `change`.
    pub open spec fn with_balance_changed(
        self,
        token: Seq<char>,
        holder: Seq<char>,
        change: int,
    ) -> Ledger {
        Ledger {
            balances: self.balances.insert((token, holder), self.balance(token, holder) + change),
            ..self
        }
    }

    /// What the sender has less, the receiver has more.
    pub open spec fn transferred(self, transfer: TransferView) -> Ledger {
        self.with_balance_changed(
            transfer.token,
            transfer.from,
            -transfer.amount,
        ).with_balance_changed(transfer.token, transfer.to, transfer.amount as int)
    }

    /// Whether the token carries a transfer out. It moves no negative amount, and no more than
    /// the sender has.
    pub open spec fn moves(self, host: Host, transfer: TransferView) -> bool {
        &&& host.permitted.contains(transfer)
        &&& 0 <= transfer.amount <= self.balance(transfer.token, transfer.from)
    }

    /// Where the lifetime of the entry under a key stands once the entry is written: a new one
    /// starts with what the host gives it, any other keeps its own.
    pub open spec fn lifetime_on_store(self, host: Host, key: DataKeyView) -> u32 {
        match lookup(self.live_until, key) {
            Some(live_until) => live_until,
            None => host.min_live_until,
        }
    }

    /// A record written under its key. A key takes only records of its own kind.
    pub open spec fn stored(self, host: Host, key: DataKeyView, record: RecordView) -> Ledger {
        let lasting = Ledger {
            live_until: self.live_until.insert(key, self.lifetime_on_store(host, key)),
            ..self
        };
        match (key, record) {
            (DataKeyView::Market(market_id), RecordView::Market(market)) => Ledger {
                markets: self.markets.insert(market_id, market),
                ..lasting
            },
            (
                DataKeyView::Prediction(market_id, predictor),
                RecordView::Prediction(prediction),
            ) => Ledger {
                predictions: self.predictions.insert((market_id, predictor), prediction),
                ..lasting
            },
            (DataKeyView::PredictorList(market_id), RecordView::PredictorList(predictors)) => Ledger {
                predictors: self.predictors.insert(market_id, predictors),
                ..lasting
            },
            (DataKeyView::User(address), RecordView::User(profile)) => Ledger {
                profiles: self.profiles.insert(address, profile),
                ..lasting
            },
            _ => self,
        }
    }

    /// The entry under a key kept alive, if the host can do that.
    pub open spec fn kept_alive(
        self,
        host: Host,
        key: DataKeyView,
        threshold: u32,
        extend_to: u32,
    ) -> Option<Ledger> {
        match lookup(self.live_until, key) {
            Some(live_until) => if host.can_extend(live_until, threshold, extend_to) {
                Some(
                    Ledger {
                        live_until: self.live_until.insert(
                            key,
                            host.extended(live_until, threshold, extend_to),
                        ),
                        ..self
                    },
                )
            } else {
                None
            },
            None => None,
        }
    }

    /// The ledger after one effect was carried out, or `None` where the host or the token
    /// breaks the invocation off. An authorisation that was given leaves no trace.
    pub open spec fn after_effect(self, host: Host, effect: EffectView) -> Option<Ledger> {
        match effect {
            EffectView::RequireAuth(address) => if host.authorised.contains(address) {
                Some(self)
            } else {
                None
            },
            EffectView::Transfer(transfer) => if self.moves(host, transfer) {
                Some(self.transferred(transfer))
            } else {
                None
            },
            EffectView::Store(key, record) => Some(self.stored(host, key, record)),
            EffectView::ExtendTtl { key, threshold, extend_to } => self.kept_alive(
                host,
                key,
                threshold,
                extend_to,
            ),
            EffectView::Publish(event) => Some(Ledger { events: self.events.push(event), ..self }),
        }
    }

    /// The ledger after effects were carried out one after the other, or `None` where one of
    /// them broke the invocation off.
    pub open spec fn after_effects(self, host: Host, effects: Seq<EffectView>) -> Option<Ledger>
        decreases effects.len(),
    {
        if effects.len() == 0 {
            Some(self)
        } else {
            match self.after_effects(host, effects.drop_last()) {
                Some(before) => before.after_effect(host, effects.last()),
                None => None,
            }
        }
    }

    /// How an invocation ends that asked for `effects` and returned `result`.
    pub open spec fn invocation_outcome(
        self,
        host: Host,
        result: Result<(), InsightArenaError>,
        effects: Seq<EffectView>,
    ) -> Outcome {
        match self.after_effects(host, effects) {
            None => Outcome::Aborted,
            Some(_) => match result {
                Ok(_) => Outcome::Accepted,
                Err(error) => Outcome::Refused(error),
            },
        }
    }

    /// The ledger after an invocation ended: its effects count only if it was accepted.
    pub open spec fn after_invocation(
        self,
        host: Host,
        result: Result<(), InsightArenaError>,
        effects: Seq<EffectView>,
    ) -> Ledger {
        if self.invocation_outcome(host, result, effects) is Accepted {
            self.after_effects(host, effects)->0
        } else {
            self
        }
    }

    /// What the contract returns to a submission on this ledger, if it is not broken off.
    pub open spec fn submission_result(self, call: InvocationView, request: Request) -> Result<
        (),
        InsightArenaError,
    > {
        request.result(call, self.snapshot(request.market_id, request.predictor))
    }

    /// What a submission on this ledger asks for.
    pub open spec fn submission_effects(self, call: InvocationView, request: Request) -> Seq<
        EffectView,
    > {
        request.effects(call, self.snapshot(request.market_id, request.predictor))
    }

    /// How an attempt at a submission ends on this ledger.
    pub open spec fn outcome(self, attempt: Attempt) -> Outcome {
        self.invocation_outcome(
            attempt.host,
            self.submission_result(attempt.call, attempt.request),
            self.submission_effects(attempt.call, attempt.request),
        )
    }

    /// The ledger after an attempt at a submission.
    pub open spec fn after_attempt(self, attempt: Attempt) -> Ledger {
        self.after_invocation(
            attempt.host,
            self.submission_result(attempt.call, attempt.request),
            self.submission_effects(attempt.call, attempt.request),
        )
    }

    /// Every entry is alive at a ledger.
    pub open spec fn alive_at(self, sequence: u32) -> bool {
        forall|key: DataKeyView| #[trigger]
            self.live_until.dom().contains(key) ==> sequence <= self.live_until[key]
    }

    /// Every entry has a lifetime, and nothing else has one.
    pub open spec fn lifetimes_match(self) -> bool {
        forall|key: DataKeyView| #[trigger]
            self.live_until.dom().contains(key) <==> self.record_at(key) is Some
    }

    /// The last ledger of the entry under a key after the entry was written and kept alive by
    /// an attempt.
    pub open spec fn renewed(self, attempt: Attempt, key: DataKeyView) -> u32 {
        attempt.host.extended(
            self.lifetime_on_store(attempt.host, key),
            attempt.call.ttl.threshold,
            attempt.call.ttl.bump,
        )
    }

    /// Whether an attempt can keep the entry under a key alive once it has written it.
    pub open spec fn can_renew(self, attempt: Attempt, key: DataKeyView) -> bool {
        attempt.host.can_extend(
            self.lifetime_on_store(attempt.host, key),
            attempt.call.ttl.threshold,
            attempt.call.ttl.bump,
        )
    }

    /// A record written under its key by an attempt, and its entry kept alive.
    pub open spec fn written(self, attempt: Attempt, key: DataKeyView, record: RecordView) -> Ledger {
        Ledger {
            live_until: self.live_until.insert(key, self.renewed(attempt, key)),
            ..self.stored(attempt.host, key, record)
        }
    }
}

/// A choice of predictions: all of them, those on one market, or those by one predictor.
pub enum Selection {
    All,
    OnMarket(u64),
    By(Seq<char>),
}

impl Selection {
    /// Whether the prediction under `key` is chosen.
    pub open spec fn covers(self, key: (u64, Seq<char>)) -> bool {
        match self {
            Selection::All => true,
            Selection::OnMarket(market_id) => key.0 == market_id,
            Selection::By(predictor) => key.1 == predictor,
        }
    }

    /// The sum of the stakes of the chosen predictions.
    pub open spec fn stake(self, predictions: Map<(u64, Seq<char>), PredictionView>) -> int
        decreases predictions.dom().len(),
    {
        if predictions.dom().finite() && predictions.dom().len() > 0 {
            let key = predictions.dom().choose();
            self.stake(predictions.remove(key)) + (if self.covers(key) {
                predictions[key].stake_amount as int
            } else {
                0
            })
        } else {
            0
        }
    }

    /// The number of chosen predictions.
    pub open spec fn count(self, predictions: Map<(u64, Seq<char>), PredictionView>) -> int
        decreases predictions.dom().len(),
    {
        if predictions.dom().finite() && predictions.dom().len() > 0 {
            let key = predictions.dom().choose();
            self.count(predictions.remove(key)) + (if self.covers(key) {
                1int
            } else {
                0
            })
        } else {
            0
        }
    }
}

impl Ledger {
    /// Every prediction belongs to a market and to a user with a profile, and says so.
    pub open spec fn predictions_belong(self) -> bool {
        &&& self.predictions.dom().finite()
        &&& forall|key: (u64, Seq<char>)| #[trigger]
            self.predictions.dom().contains(key) ==> {
                &&& self.markets.dom().contains(key.0)
                &&& self.profiles.dom().contains(key.1)
                &&& self.predictions[key].market_id == key.0
                &&& self.predictions[key].predictor == key.1
            }
    }

    /// The list of a market names each of its predictors once and nobody else, and is as long as
    /// the market's count says.
    pub open spec fn list_matches(self, market_id: u64) -> bool {
        let predictors = self.predictors_of(market_id);
        &&& predictors.len() == self.markets[market_id].participant_count
        &&& predictors.no_duplicates()
        &&& forall|predictor: Seq<char>|
            predictors.contains(predictor) <==> #[trigger] self.predictions.dom().contains(
                (market_id, predictor),
            )
    }

    /// The pool of a market is what was staked on it, and its count is how many staked.
    pub open spec fn pool_matches(self, market_id: u64) -> bool {
        let market = self.markets[market_id];
        &&& market.total_pool == Selection::OnMarket(market_id).stake(self.predictions)
        &&& market.participant_count == Selection::OnMarket(market_id).count(self.predictions)
    }

    /// The pool, the count and the list of a market agree with the predictions on it.
    pub open spec fn market_balances(self, market_id: u64) -> bool {
        &&& self.pool_matches(market_id)
        &&& self.list_matches(market_id)
    }

    /// The totals of a profile are what its user staked, and how often, over all markets.
    pub open spec fn profile_balances(self, address: Seq<char>) -> bool {
        let profile = self.profiles[address];
        &&& profile.address == address
        &&& profile.total_staked == Selection::By(address).stake(self.predictions)
        &&& profile.total_predictions == Selection::By(address).count(self.predictions)
    }

    /// The totals of a user's profile agree with the user's predictions; a user without a profile
    /// has made none.
    pub open spec fn user_balances(self, address: Seq<char>) -> bool {
        if self.profiles.dom().contains(address) {
            self.profile_balances(address)
        } else {
            forall|key: (u64, Seq<char>)| #[trigger]
                self.predictions.dom().contains(key) ==> key.1 != address
        }
    }

    /// What `contract` holds of `token` beyond the stakes of all predictions.
    pub open spec fn surplus(self, token: Seq<char>, contract: Seq<char>) -> int {
        self.balance(token, contract) - Selection::All.stake(self.predictions)
    }

    /// Every total on the ledger agrees with the predictions on it.
    pub open spec fn books_balance(self) -> bool {
        &&& self.predictions_belong()
        &&& forall|market_id: u64| #[trigger]
            self.markets.dom().contains(market_id) ==> self.market_balances(market_id)
        &&& forall|address: Seq<char>| #[trigger]
            self.profiles.dom().contains(address) ==> self.profile_balances(address)
    }
}

} // verus!
