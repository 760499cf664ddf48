//! Submitting a prediction: the guards that a request has to pass, and the records and
//! transfers that an accepted request leaves behind.

use vstd::prelude::*;

use crate::errors::InsightArenaError;
use crate::escrow;
use crate::invocation::{
    Effect, EffectView, Invocation, InvocationView, PredictionSubmitted, PredictionSubmittedView,
    Transfer,
};
use crate::storage_types::{
    strkeys, texts, Address, DataKey, DataKeyView, Market, MarketView, Prediction, PredictionView,
    Record, RecordView, Symbol, UserProfile, UserProfileView,
};

verus! {

/// What the ledger held under the keys that a submission reads.
#[derive(Debug)]
pub struct Snapshot {
    pub market: Option<Market>,
    pub already_predicted: bool,
    pub predictors: Option<Vec<Address>>,
    pub profile: Option<UserProfile>,
}

/// The mathematical content of a [`Snapshot`].
pub struct SnapshotView {
    pub market: Option<MarketView>,
    pub already_predicted: bool,
    pub predictors: Option<Seq<Seq<char>>>,
    pub profile: Option<UserProfileView>,
}

impl View for Snapshot {
    type V = SnapshotView;

    open spec fn view(&self) -> SnapshotView {
        SnapshotView {
            market: match self.market {
                Some(market) => Some(market@),
                None => None,
            },
            already_predicted: self.already_predicted,
            predictors: match self.predictors {
                Some(predictors) => Some(strkeys(predictors@)),
                None => None,
            },
            profile: match self.profile {
                Some(profile) => Some(profile@),
                None => None,
            },
        }
    }
}

/// The keys whose entries make up the [`Snapshot`] of a submission.
#[derive(Debug)]
pub struct SubmissionKeys {
    pub market: DataKey,
    pub prediction: DataKey,
    pub predictors: DataKey,
    pub profile: DataKey,
}

/// The keys that a submission by `predictor` on `market_id` reads and writes.
pub fn submission_keys(market_id: u64, predictor: &Address) -> (keys: SubmissionKeys)
    ensures
        keys.market@ == DataKeyView::Market(market_id),
        keys.prediction@ == DataKeyView::Prediction(market_id, predictor@),
        keys.predictors@ == DataKeyView::PredictorList(market_id),
        keys.profile@ == DataKeyView::User(predictor@),
        keys.market == DataKey::Market(market_id),
        keys.prediction == DataKey::Prediction(market_id, *predictor),
        keys.predictors == DataKey::PredictorList(market_id),
        keys.profile == DataKey::User(*predictor),
{
    SubmissionKeys {
        market: DataKey::Market(market_id),
        prediction: DataKey::Prediction(market_id, predictor.clone()),
        predictors: DataKey::PredictorList(market_id),
        profile: DataKey::User(predictor.clone()),
    }
}

/// A wish to stake `stake_amount` on an outcome of a market.
pub struct Request {
    pub predictor: Seq<char>,
    pub market_id: u64,
    pub chosen_outcome: Seq<char>,
    pub stake_amount: i128,
}

impl Request {
    /// The first guard that the request fails, if it fails one. The guards are tried in the
    /// order in which they stand here.
    pub open spec fn refusal(self, stored: SnapshotView, now: u64) -> Option<InsightArenaError> {
        match stored.market {
            None => Some(InsightArenaError::MarketNotFound),
            Some(market) => if now >= market.end_time {
                Some(InsightArenaError::MarketExpired)
            } else if !market.outcome_options.contains(self.chosen_outcome) {
                Some(InsightArenaError::InvalidOutcome)
            } else if self.stake_amount < market.min_stake {
                Some(InsightArenaError::StakeTooLow)
            } else if self.stake_amount > market.max_stake {
                Some(InsightArenaError::StakeTooHigh)
            } else if stored.already_predicted {
                Some(InsightArenaError::AlreadyPredicted)
            } else {
                None
            },
        }
    }

    /// The prediction that the request makes at `now`.
    pub open spec fn prediction(self, now: u64) -> PredictionView {
        PredictionView::fresh(
            self.market_id,
            self.predictor,
            self.chosen_outcome,
            self.stake_amount,
            now,
        )
    }

    /// The market's predictors once this one has joined, at the end.
    pub open spec fn joined_list(self, stored: SnapshotView) -> Seq<Seq<char>> {
        match stored.predictors {
            Some(predictors) => predictors.push(self.predictor),
            None => seq![self.predictor],
        }
    }

    /// The market with the stake in its pool and the predictor counted, if both totals fit.
    pub open spec fn joined_market(self, market: MarketView) -> Option<MarketView> {
        if i128::MIN <= market.total_pool + self.stake_amount <= i128::MAX
            && market.participant_count < u32::MAX {
            Some(
                MarketView {
                    total_pool: (market.total_pool + self.stake_amount) as i128,
                    participant_count: (market.participant_count + 1) as u32,
                    ..market
                },
            )
        } else {
            None
        }
    }

    /// The predictor's profile before the request: a fresh one for a user without one.
    pub open spec fn profile_before(self, stored: SnapshotView, now: u64) -> UserProfileView {
        match stored.profile {
            Some(profile) => profile,
            None => UserProfileView::fresh(self.predictor, now),
        }
    }

    /// A profile with the prediction counted and its stake added, if both totals fit.
    pub open spec fn credited(self, profile: UserProfileView) -> Option<UserProfileView> {
        if profile.total_predictions < u32::MAX && i128::MIN <= profile.total_staked
            + self.stake_amount <= i128::MAX {
            Some(
                UserProfileView {
                    total_predictions: (profile.total_predictions + 1) as u32,
                    total_staked: (profile.total_staked + self.stake_amount) as i128,
                    ..profile
                },
            )
        } else {
            None
        }
    }

    /// The event that tells of the prediction.
    pub open spec fn event(self) -> PredictionSubmittedView {
        PredictionSubmittedView {
            topics: ("pred"@, "submitd"@),
            market_id: self.market_id,
            predictor: self.predictor,
            outcome: self.chosen_outcome,
            amount: self.stake_amount,
        }
    }

    /// What a submission returns unless it is aborted: success where the platform takes
    /// requests, no guard refuses this one, a token is configured and no total overflows; or
    /// the first error on that way.
    pub open spec fn result(self, call: InvocationView, stored: SnapshotView) -> Result<
        (),
        InsightArenaError,
    > {
        match call.admission {
            Err(error) => Err(error),
            Ok(_) => match self.refusal(stored, call.now) {
                Some(error) => Err(error),
                None => match call.token {
                    Err(error) => Err(error),
                    Ok(_) => if self.joined_market(stored.market->0) is None || self.credited(
                        self.profile_before(stored, call.now),
                    ) is None {
                        Err(InsightArenaError::Overflow)
                    } else {
                        Ok(())
                    },
                },
            },
        }
    }

    /// The writes that record the prediction and its predictor.
    pub open spec fn entry_effects(self, call: InvocationView, stored: SnapshotView) -> Seq<
        EffectView,
    > {
        let prediction_key = DataKeyView::Prediction(self.market_id, self.predictor);
        let list_key = DataKeyView::PredictorList(self.market_id);
        seq![
            EffectView::Store(prediction_key, RecordView::Prediction(self.prediction(call.now))),
            call.bump(prediction_key),
            EffectView::Store(list_key, RecordView::PredictorList(self.joined_list(stored))),
            call.bump(list_key),
        ]
    }

    /// The writes that update the market.
    pub open spec fn market_effects(self, call: InvocationView, joined: MarketView) -> Seq<
        EffectView,
    > {
        let market_key = DataKeyView::Market(self.market_id);
        seq![
            EffectView::Store(market_key, RecordView::Market(joined)),
            call.bump(market_key),
        ]
    }

    /// The writes that update the predictor's profile, and the event behind them.
    pub open spec fn profile_effects(self, call: InvocationView, credited: UserProfileView) -> Seq<
        EffectView,
    > {
        let user_key = DataKeyView::User(self.predictor);
        seq![
            EffectView::Store(user_key, RecordView::User(credited)),
            call.bump(user_key),
            EffectView::Publish(self.event()),
        ]
    }

    /// What a submission asks for once no guard refuses it.
    pub open spec fn accepted_effects(self, call: InvocationView, stored: SnapshotView) -> Seq<
        EffectView,
    > {
        let lock = escrow::movement(call, self.predictor, call.contract, self.stake_amount);
        if call.token is Err {
            lock
        } else {
            let entered = lock + self.entry_effects(call, stored);
            match self.joined_market(stored.market->0) {
                None => entered,
                Some(joined) => {
                    let pooled = entered + self.market_effects(call, joined);
                    match self.credited(self.profile_before(stored, call.now)) {
                        None => pooled,
                        Some(credited) => pooled + self.profile_effects(call, credited),
                    }
                },
            }
        }
    }

    /// What a submission asks for, in order. One that meets an error stops there: what it
    /// asked for before is undone with it.
    pub open spec fn effects(self, call: InvocationView, stored: SnapshotView) -> Seq<EffectView> {
        if call.admission is Err {
            seq![]
        } else {
            seq![EffectView::RequireAuth(self.predictor)] + (if self.refusal(stored, call.now) is Some {
                seq![]
            } else {
                self.accepted_effects(call, stored)
            })
        }
    }
}

fn bump_prediction(call: &mut Invocation, market_id: u64, predictor: &Address)
    ensures
        final(call)@ == old(call)@.asking(
            seq![old(call)@.bump(DataKeyView::Prediction(market_id, predictor@))],
        ),
        final(call).effects@ == old(call).effects@.push(
            Effect::ExtendTtl {
                key: DataKey::Prediction(market_id, *predictor),
                threshold: old(call).ttl.threshold,
                extend_to: old(call).ttl.bump,
            },
        ),
        *final(call) == (Invocation { effects: final(call).effects, ..*old(call) }),
{
    call.extend_ttl(DataKey::Prediction(market_id, predictor.clone()));
}

fn bump_market(call: &mut Invocation, market_id: u64)
    ensures
        final(call)@ == old(call)@.asking(seq![old(call)@.bump(DataKeyView::Market(market_id))]),
        final(call).effects@ == old(call).effects@.push(
            Effect::ExtendTtl {
                key: DataKey::Market(market_id),
                threshold: old(call).ttl.threshold,
                extend_to: old(call).ttl.bump,
            },
        ),
        *final(call) == (Invocation { effects: final(call).effects, ..*old(call) }),
{
    call.extend_ttl(DataKey::Market(market_id));
}

fn bump_predictor_list(call: &mut Invocation, market_id: u64)
    ensures
        final(call)@ == old(call)@.asking(
            seq![old(call)@.bump(DataKeyView::PredictorList(market_id))],
        ),
        final(call).effects@ == old(call).effects@.push(
            Effect::ExtendTtl {
                key: DataKey::PredictorList(market_id),
                threshold: old(call).ttl.threshold,
                extend_to: old(call).ttl.bump,
            },
        ),
        *final(call) == (Invocation { effects: final(call).effects, ..*old(call) }),
{
    call.extend_ttl(DataKey::PredictorList(market_id));
}

fn bump_user(call: &mut Invocation, address: &Address)
    ensures
        final(call)@ == old(call)@.asking(seq![old(call)@.bump(DataKeyView::User(address@))]),
        final(call).effects@ == old(call).effects@.push(
            Effect::ExtendTtl {
                key: DataKey::User(*address),
                threshold: old(call).ttl.threshold,
                extend_to: old(call).ttl.bump,
            },
        ),
        *final(call) == (Invocation { effects: final(call).effects, ..*old(call) }),
{
    call.extend_ttl(DataKey::User(address.clone()));
}

fn emit_prediction_submitted(
    call: &mut Invocation,
    market_id: u64,
    predictor: &Address,
    outcome: &Symbol,
    amount: i128,
)
    ensures
        final(call)@ == old(call)@.asking(
            seq![
                EffectView::Publish(
                    PredictionSubmittedView {
                        topics: ("pred"@, "submitd"@),
                        market_id,
                        predictor: predictor@,
                        outcome: outcome@,
                        amount,
                    },
                ),
            ],
        ),
        final(call).effects@.len() == old(call).effects@.len() + 1,
        final(call).effects@.drop_last() == old(call).effects@,
        match final(call).effects@.last() {
            Effect::Publish(event) => {
                &&& event.topics.0.text@ == "pred"@
                &&& event.topics.1.text@ == "submitd"@
                &&& event.market_id == market_id
                &&& event.predictor == *predictor
                &&& event.outcome == *outcome
                &&& event.amount == amount
            },
            _ => false,
        },
        *final(call) == (Invocation { effects: final(call).effects, ..*old(call) }),
{
    call.ask(
        Effect::Publish(
            PredictionSubmitted {
                topics: (Symbol::new("pred"), Symbol::new("submitd")),
                market_id,
                predictor: predictor.clone(),
                outcome: outcome.clone(),
                amount,
            },
        ),
    );
}

/// Whether `outcome` is among `options`.
fn offers(options: &Vec<Symbol>, outcome: &Symbol) -> (offered: bool)
    ensures
        offered == texts(options@).contains(outcome@),
        offered == exists|i: int| 0 <= i < options@.len() && (#[trigger] options@[i]).text@
            == outcome.text@,
{
    let mut i: usize = 0;
    while i < options.len()
        invariant
            i <= options.len(),
            forall|j: int| 0 <= j < i ==> texts(options@)[j] != outcome@,
            forall|j: int| 0 <= j < i ==> (#[trigger] options@[j]).text@ != outcome.text@,
        decreases options.len() - i,
    {
        if options[i].same_as(outcome) {
            assert(texts(options@)[i as int] == outcome@);
            return true;
        }
        i += 1;
    }
    false
}

/// Submits a prediction: `predictor` stakes `stake_amount` on `chosen_outcome` of an open
/// market.
///
/// The guards, in order:
/// 1. the platform takes requests (else the error that says why not),
/// 2. the predictor has authorised the request (else the invocation is aborted),
/// 3. the market exists (else `MarketNotFound`),
/// 4. it is before the market's end (else `MarketExpired`),
/// 5. the market offers the outcome (else `InvalidOutcome`),
/// 6. the stake is at least the market's minimum (else `StakeTooLow`),
/// 7. and at most its maximum (else `StakeTooHigh`),
/// 8. the predictor holds no prediction on the market yet (else `AlreadyPredicted`).
///
/// A request that passes them locks the stake in escrow (the invocation is aborted where the
/// token refuses), records the prediction, puts the predictor at the end of the market's list,
/// adds the stake to the pool and the predictor to the count, updates the predictor's profile
/// (a fresh one for a first prediction) and publishes an event; a total that would leave its
/// type is an `Overflow`.
/// `stored` is what the ledger held under [`submission_keys`].
#[verifier::spinoff_prover]
#[verifier::rlimit(40)]
pub fn submit_prediction(
    call: &mut Invocation,
    stored: Snapshot,
    predictor: Address,
    market_id: u64,
    chosen_outcome: Symbol,
    stake_amount: i128,
) -> (result: Result<(), InsightArenaError>)
    ensures
        ({
            let request = Request {
                predictor: predictor@,
                market_id,
                chosen_outcome: chosen_outcome@,
                stake_amount,
            };
            &&& result == request.result(old(call)@, stored@)
            &&& final(call)@ == old(call)@.asking(request.effects(old(call)@, stored@))
        }),
        *final(call) == (Invocation { effects: final(call).effects, ..*old(call) }),
        ({
            let now = old(call).now;
            let market = stored.market->0;
            let offered = exists|i: int|
                0 <= i < market.outcome_options@.len() && (#[trigger] market.outcome_options@[i]).text@
                    == chosen_outcome.text@;
            let pool_fits = i128::MIN <= market.total_pool + stake_amount <= i128::MAX
                && market.participant_count < u32::MAX;
            let profile_fits = stored.profile matches Some(profile)
                ==> profile.total_predictions < u32::MAX && i128::MIN <= profile.total_staked
                + stake_amount <= i128::MAX;
            &&& old(call).admission matches Err(error) ==> result == Err::<(), _>(error)
            &&& old(call).admission is Ok ==> {
                &&& stored.market is None ==> result == Err::<(), _>(
                    InsightArenaError::MarketNotFound,
                )
                &&& stored.market is Some ==> {
                    &&& now >= market.end_time ==> result == Err::<(), _>(
                        InsightArenaError::MarketExpired,
                    )
                    &&& now < market.end_time && !offered ==> result == Err::<(), _>(
                        InsightArenaError::InvalidOutcome,
                    )
                    &&& now < market.end_time && offered ==> {
                        &&& stake_amount < market.min_stake ==> result == Err::<(), _>(
                            InsightArenaError::StakeTooLow,
                        )
                        &&& market.min_stake <= stake_amount && market.max_stake < stake_amount
                            ==> result == Err::<(), _>(InsightArenaError::StakeTooHigh)
                        &&& market.min_stake <= stake_amount <= market.max_stake ==> {
                            &&& stored.already_predicted ==> result == Err::<(), _>(
                                InsightArenaError::AlreadyPredicted,
                            )
                            &&& !stored.already_predicted ==> match old(call).config {
                                Err(error) => result == Err::<(), _>(error),
                                Ok(_) => result == (if pool_fits && profile_fits {
                                    Ok::<(), _>(())
                                } else {
                                    Err(InsightArenaError::Overflow)
                                }),
                            }
                        }
                    }
                }
            }
        }),
        ({
            let before = old(call).effects@;
            let n = before.len() as int;
            let after = final(call).effects@;
            let now = old(call).now;
            let token = old(call).config->Ok_0.xlm_token;
            let market = stored.market->0;
            let threshold = old(call).ttl.threshold;
            let extend_to = old(call).ttl.bump;
            let passed = stored.market is Some && now < market.end_time && (exists|i: int|
                0 <= i < market.outcome_options@.len() && (#[trigger] market.outcome_options@[i]).text@
                    == chosen_outcome.text@) && market.min_stake <= stake_amount <= market.max_stake
                && !stored.already_predicted && old(call).config is Ok;
            let pool_fits = i128::MIN <= market.total_pool + stake_amount <= i128::MAX
                && market.participant_count < u32::MAX;
            let profile_fits = stored.profile matches Some(profile)
                ==> profile.total_predictions < u32::MAX && i128::MIN <= profile.total_staked
                + stake_amount <= i128::MAX;
            &&& after.len() == n + (if old(call).admission is Err {
                0int
            } else if !passed {
                1
            } else if !pool_fits {
                6
            } else if !profile_fits {
                8
            } else {
                11
            })
            &&& after.take(n) == before
            &&& after.len() > n ==> after[n] == Effect::RequireAuth(predictor)
            &&& after.len() > n + 1 ==> {
                &&& after[n + 1] == Effect::Transfer(
                    Transfer { token, from: predictor, to: old(call).contract, amount: stake_amount },
                )
                &&& after[n + 2] == Effect::Store(
                    DataKey::Prediction(market_id, predictor),
                    Record::Prediction(
                        Prediction {
                            market_id,
                            predictor,
                            chosen_outcome,
                            stake_amount,
                            submitted_at: now,
                            payout_claimed: false,
                            payout_amount: 0,
                        },
                    ),
                )
                &&& after[n + 3] == (Effect::ExtendTtl {
                    key: DataKey::Prediction(market_id, predictor),
                    threshold,
                    extend_to,
                })
                &&& match after[n + 4] {
                    Effect::Store(key, Record::PredictorList(list)) => {
                        &&& key == DataKey::PredictorList(market_id)
                        &&& list@ == (match stored.predictors {
                            Some(predictors) => predictors@.push(predictor),
                            None => seq![predictor],
                        })
                    },
                    _ => false,
                }
                &&& after[n + 5] == (Effect::ExtendTtl {
                    key: DataKey::PredictorList(market_id),
                    threshold,
                    extend_to,
                })
            }
            &&& after.len() > n + 6 ==> {
                &&& after[n + 6] == Effect::Store(
                    DataKey::Market(market_id),
                    Record::Market(
                        Market {
                            total_pool: (market.total_pool + stake_amount) as i128,
                            participant_count: (market.participant_count + 1) as u32,
                            ..market
                        },
                    ),
                )
                &&& after[n + 7] == (Effect::ExtendTtl {
                    key: DataKey::Market(market_id),
                    threshold,
                    extend_to,
                })
            }
            &&& after.len() > n + 8 ==> {
                &&& after[n + 8] == Effect::Store(
                    DataKey::User(predictor),
                    Record::User(
                        match stored.profile {
                            Some(profile) => UserProfile {
                                total_predictions: (profile.total_predictions + 1) as u32,
                                total_staked: (profile.total_staked + stake_amount) as i128,
                                ..profile
                            },
                            None => UserProfile {
                                address: predictor,
                                total_predictions: 1,
                                total_staked: stake_amount,
                                joined_at: now,
                            },
                        },
                    ),
                )
                &&& after[n + 9] == (Effect::ExtendTtl {
                    key: DataKey::User(predictor),
                    threshold,
                    extend_to,
                })
                &&& match after[n + 10] {
                    Effect::Publish(event) => {
                        &&& event.topics.0.text@ == "pred"@
                        &&& event.topics.1.text@ == "submitd"@
                        &&& event.market_id == market_id
                        &&& event.predictor == predictor
                        &&& event.outcome == chosen_outcome
                        &&& event.amount == stake_amount
                    },
                    _ => false,
                }
            }
        }),
{
    let ghost before = call@;
    let ghost request = Request {
        predictor: predictor@,
        market_id,
        chosen_outcome: chosen_outcome@,
        stake_amount,
    };
    let ghost held = stored@;

    // Guard 1: the platform takes requests.
    match call.admission {
        Err(error) => {
            assert(before.effects + Seq::<EffectView>::empty() =~= before.effects);
            return Err(error);
        },
        Ok(()) => {},
    }

    // Guard 2: the predictor has authorised the request.
    call.ask(Effect::RequireAuth(predictor.clone()));
    let ghost auth = seq![EffectView::RequireAuth(request.predictor)];
    assert(auth + Seq::<EffectView>::empty() =~= auth);

    // Guard 3: the market exists.
    let market = match stored.market {
        Some(market) => market,
        None => {
            return Err(InsightArenaError::MarketNotFound);
        },
    };

    // Guard 4: it still takes predictions.
    let now: u64 = call.now;
    if now >= market.end_time {
        return Err(InsightArenaError::MarketExpired);
    }

    // Guard 5: it offers the outcome.
    if !offers(&market.outcome_options, &chosen_outcome) {
        return Err(InsightArenaError::InvalidOutcome);
    }

    // Guards 6 and 7: the stake is within the market's bounds.
    if stake_amount < market.min_stake {
        return Err(InsightArenaError::StakeTooLow);
    }
    if stake_amount > market.max_stake {
        return Err(InsightArenaError::StakeTooHigh);
    }

    // Guard 8: the predictor holds no prediction on the market yet.
    if stored.already_predicted {
        return Err(InsightArenaError::AlreadyPredicted);
    }

    // The stake moves into escrow.
    let ghost lock = escrow::movement(
        before,
        request.predictor,
        before.contract,
        request.stake_amount,
    );
    let locked = escrow::lock_stake(call, &predictor, stake_amount);
    assert(call@.effects =~= before.effects + (auth + lock));
    if let Err(error) = locked {
        return Err(error);
    }

    // The prediction is recorded.
    let prediction = Prediction::new(
        market_id,
        predictor.clone(),
        chosen_outcome.clone(),
        stake_amount,
        now,
    );
    call.ask(
        Effect::Store(
            DataKey::Prediction(market_id, predictor.clone()),
            Record::Prediction(prediction),
        ),
    );
    bump_prediction(call, market_id, &predictor);

    // The predictor joins the market's list.
    let mut predictors = match stored.predictors {
        Some(predictors) => predictors,
        None => Vec::new(),
    };
    predictors.push(predictor.clone());
    assert(strkeys(predictors@) =~= request.joined_list(held));
    call.ask(Effect::Store(DataKey::PredictorList(market_id), Record::PredictorList(predictors)));
    bump_predictor_list(call, market_id);
    let ghost entered = lock + request.entry_effects(before, held);
    assert(call@.effects =~= before.effects + (auth + entered));

    // The pool and the number of participants grow together.
    let total_pool = match market.total_pool.checked_add(stake_amount) {
        Some(total_pool) => total_pool,
        None => {
            return Err(InsightArenaError::Overflow);
        },
    };
    let participant_count = match market.participant_count.checked_add(1) {
        Some(participant_count) => participant_count,
        None => {
            return Err(InsightArenaError::Overflow);
        },
    };
    let joined = Market {
        outcome_options: market.outcome_options,
        end_time: market.end_time,
        min_stake: market.min_stake,
        max_stake: market.max_stake,
        total_pool,
        participant_count,
    };
    let ghost pooled = entered + request.market_effects(before, joined@);
    call.ask(Effect::Store(DataKey::Market(market_id), Record::Market(joined)));
    bump_market(call, market_id);
    assert(call@.effects =~= before.effects + (auth + pooled));

    // The predictor's profile is updated, and created first if there is none.
    let profile = match stored.profile {
        Some(profile) => profile,
        None => UserProfile::new(predictor.clone(), now),
    };
    let total_predictions = match profile.total_predictions.checked_add(1) {
        Some(total_predictions) => total_predictions,
        None => {
            return Err(InsightArenaError::Overflow);
        },
    };
    let total_staked = match profile.total_staked.checked_add(stake_amount) {
        Some(total_staked) => total_staked,
        None => {
            return Err(InsightArenaError::Overflow);
        },
    };
    let credited = UserProfile {
        address: profile.address,
        total_predictions,
        total_staked,
        joined_at: profile.joined_at,
    };
    let ghost finished = pooled + request.profile_effects(before, credited@);
    call.ask(Effect::Store(DataKey::User(predictor.clone()), Record::User(credited)));
    bump_user(call, &predictor);

    // The event tells of it.
    let ghost untold = call.effects@;
    emit_prediction_submitted(call, market_id, &predictor, &chosen_outcome, stake_amount);
    assert(call.effects@ =~= untold.push(call.effects@.last()));
    assert(call@.effects =~= before.effects + (auth + finished));
    Ok(())
}

} // verus!
