//! What a submission and a movement of stakes guarantee, field by field.

use vstd::prelude::*;

use crate::errors::InsightArenaError;
use crate::escrow::{movement, movement_result};
use crate::host::{Attempt, Host, Outcome};
use crate::invocation::{
    Effect, EffectView, Invocation, InvocationView, PredictionSubmittedView, TransferView,
};
use crate::laws::{
    after_history, law_accepted_submission, law_outcome,
    law_refused_submission_asks_for_nothing, law_transfer_conserves,
};
use crate::ledger::{Ledger, Selection};
use crate::prediction::{Request, SnapshotView};
use crate::storage_types::{
    Address, DataKey, DataKeyView, Market, MarketView, Prediction, PredictionView, Record,
    RecordView, Symbol, UserProfile, UserProfileView,
};

verus! {

/// The prediction that an accepted attempt leaves under its market and its predictor is the one
/// that was asked for: this predictor, this outcome, this stake, now, with nothing paid out.
pub proof fn law_prediction_is_recorded(ledger: Ledger, attempt: Attempt)
    requires
        ledger.outcome(attempt) is Accepted,
    ensures
        ({
            let request = attempt.request;
            let after = ledger.after_attempt(attempt);
            let recorded = after.predictions[(request.market_id, request.predictor)];
            &&& !ledger.predictions.dom().contains((request.market_id, request.predictor))
            &&& after.predictions.dom() == ledger.predictions.dom().insert(
                (request.market_id, request.predictor),
            )
            &&& recorded.market_id == request.market_id
            &&& recorded.predictor == request.predictor
            &&& recorded.chosen_outcome == request.chosen_outcome
            &&& recorded.stake_amount == request.stake_amount
            &&& recorded.submitted_at == attempt.call.now
            &&& recorded.payout_claimed == false
            &&& recorded.payout_amount == 0
            &&& ledger.markets[request.market_id].outcome_options.contains(
                recorded.chosen_outcome,
            )
        }),
{
    law_accepted_submission(ledger, attempt);
}

/// An accepted attempt publishes exactly one event, behind all earlier ones. It names the market,
/// the predictor, the outcome and the amount of the request, and that amount is also what the
/// stored prediction carries and what the pool has grown by.
pub proof fn law_event_tells_what_was_staked(ledger: Ledger, attempt: Attempt)
    requires
        ledger.outcome(attempt) is Accepted,
    ensures
        ({
            let request = attempt.request;
            let after = ledger.after_attempt(attempt);
            let told = after.events.last();
            let key = (request.market_id, request.predictor);
            &&& after.events.len() == ledger.events.len() + 1
            &&& forall|i: int| 0 <= i < ledger.events.len() ==> after.events[i] == ledger.events[i]
            &&& told.topics.0 == "pred"@
            &&& told.topics.1 == "submitd"@
            &&& told.market_id == request.market_id
            &&& told.predictor == request.predictor
            &&& told.outcome == request.chosen_outcome
            &&& told.amount == request.stake_amount
            &&& told.amount == after.predictions[key].stake_amount
            &&& told.outcome == after.predictions[key].chosen_outcome
            &&& told.amount == after.markets[key.0].total_pool - ledger.markets[key.0].total_pool
        }),
{
    law_accepted_submission(ledger, attempt);
}

/// An attempt that is not accepted publishes nothing and records nothing.
pub proof fn law_no_event_without_a_prediction(ledger: Ledger, attempt: Attempt)
    requires
        !(ledger.outcome(attempt) is Accepted),
    ensures
        ledger.after_attempt(attempt).events == ledger.events,
        ledger.after_attempt(attempt).predictions == ledger.predictions,
        ledger.after_attempt(attempt).balances == ledger.balances,
{
}

/// A predictor without a profile gets one with the first accepted prediction: joined now, with
/// this one prediction and its stake.
pub proof fn law_first_prediction_creates_the_profile(ledger: Ledger, attempt: Attempt)
    requires
        ledger.outcome(attempt) is Accepted,
        !ledger.profiles.dom().contains(attempt.request.predictor),
    ensures
        ({
            let after = ledger.after_attempt(attempt);
            let created = after.profiles[attempt.request.predictor];
            &&& after.profiles.dom() == ledger.profiles.dom().insert(attempt.request.predictor)
            &&& created.address == attempt.request.predictor
            &&& created.total_predictions == 1
            &&& created.total_staked == attempt.request.stake_amount
            &&& created.joined_at == attempt.call.now
        }),
{
    law_accepted_submission(ledger, attempt);
}

/// The profile of a predictor who has one counts one more accepted prediction and its stake. The
/// user's address and the time of joining stay.
pub proof fn law_later_predictions_update_the_profile(ledger: Ledger, attempt: Attempt)
    requires
        ledger.outcome(attempt) is Accepted,
        ledger.profiles.dom().contains(attempt.request.predictor),
    ensures
        ({
            let after = ledger.after_attempt(attempt);
            let before = ledger.profiles[attempt.request.predictor];
            let updated = after.profiles[attempt.request.predictor];
            &&& after.profiles.dom() == ledger.profiles.dom()
            &&& updated.address == before.address
            &&& updated.total_predictions == before.total_predictions + 1
            &&& updated.total_staked == before.total_staked + attempt.request.stake_amount
            &&& updated.joined_at == before.joined_at
        }),
{
    law_accepted_submission(ledger, attempt);
}

/// An accepted attempt adds its stake to the pool and one to the count of its market, and puts
/// the predictor behind all who were listed. The rest of the market stays.
pub proof fn law_market_is_joined(ledger: Ledger, attempt: Attempt)
    requires
        ledger.outcome(attempt) is Accepted,
    ensures
        ({
            let id = attempt.request.market_id;
            let after = ledger.after_attempt(attempt);
            let before = ledger.markets[id];
            let joined = after.markets[id];
            let list = after.predictors[id];
            let listed = if ledger.predictors.dom().contains(id) {
                ledger.predictors[id]
            } else {
                Seq::<Seq<char>>::empty()
            };
            &&& ledger.markets.dom().contains(id)
            &&& after.markets.dom() == ledger.markets.dom()
            &&& joined.total_pool == before.total_pool + attempt.request.stake_amount
            &&& joined.participant_count == before.participant_count + 1
            &&& joined.outcome_options == before.outcome_options
            &&& joined.end_time == before.end_time
            &&& joined.min_stake == before.min_stake
            &&& joined.max_stake == before.max_stake
            &&& after.predictors.dom() == ledger.predictors.dom().insert(id)
            &&& list.len() == listed.len() + 1
            &&& list.last() == attempt.request.predictor
            &&& forall|i: int| 0 <= i < listed.len() ==> list[i] == listed[i]
        }),
{
    law_accepted_submission(ledger, attempt);
}

/// What a holder has of a token, by the balances alone.
spec fn held(ledger: Ledger, token: Seq<char>, holder: Seq<char>) -> int {
    if ledger.balances.dom().contains((token, holder)) {
        ledger.balances[(token, holder)]
    } else {
        0
    }
}

/// An accepted stake was covered by the predictor's balance, and is now in custody: the
/// predictor has that much less and the contract that much more of the configured token. No
/// other balance differs, and together they are what they were.
pub proof fn law_stake_is_moved(
    ledger: Ledger,
    attempt: Attempt,
    token: Seq<char>,
    holder: Seq<char>,
)
    requires
        ledger.outcome(attempt) is Accepted,
    ensures
        ({
            let request = attempt.request;
            let custody = attempt.call.contract;
            let configured = attempt.call.token->Ok_0;
            let after = ledger.after_attempt(attempt);
            let before_amount = if ledger.balances.dom().contains((token, holder)) {
                ledger.balances[(token, holder)]
            } else {
                0
            };
            let after_amount = if after.balances.dom().contains((token, holder)) {
                after.balances[(token, holder)]
            } else {
                0
            };
            &&& attempt.call.token is Ok
            &&& attempt.host.authorised.contains(request.predictor)
            &&& request.stake_amount >= 0
            &&& token == configured && holder == request.predictor ==> before_amount
                >= request.stake_amount
            &&& token == configured && holder == request.predictor && holder != custody
                ==> after_amount == before_amount - request.stake_amount
            &&& token == configured && holder == custody && holder != request.predictor
                ==> after_amount == before_amount + request.stake_amount
            &&& token != configured || (holder != custody && holder != request.predictor) || custody
                == request.predictor ==> after_amount == before_amount
        }),
{
    law_accepted_submission(ledger, attempt);
    law_transfer_conserves(ledger, attempt.stake());
    let after = ledger.after_attempt(attempt);
    assert(held(ledger, token, holder) == ledger.balance(token, holder));
    assert(held(after, token, holder) == after.balance(token, holder));
    assert(after.balance(token, holder) == ledger.transferred(attempt.stake()).balance(
        token,
        holder,
    ));
}

/// Nothing but the entries of the request differs after an attempt.
pub proof fn law_all_else_stays(
    ledger: Ledger,
    attempt: Attempt,
    market_id: u64,
    user: Seq<char>,
)
    ensures
        ({
            let request = attempt.request;
            let after = ledger.after_attempt(attempt);
            &&& market_id != request.market_id ==> {
                &&& after.markets.dom().contains(market_id) == ledger.markets.dom().contains(
                    market_id,
                )
                &&& after.markets[market_id] == ledger.markets[market_id]
                &&& after.predictors.dom().contains(market_id)
                    == ledger.predictors.dom().contains(market_id)
                &&& after.predictors[market_id] == ledger.predictors[market_id]
            }
            &&& user != request.predictor ==> {
                &&& after.profiles.dom().contains(user) == ledger.profiles.dom().contains(user)
                &&& after.profiles[user] == ledger.profiles[user]
            }
            &&& market_id != request.market_id || user != request.predictor ==> {
                &&& after.predictions.dom().contains((market_id, user))
                    == ledger.predictions.dom().contains((market_id, user))
                &&& after.predictions[(market_id, user)] == ledger.predictions[(market_id, user)]
            }
        }),
{
    if ledger.outcome(attempt) is Accepted {
        law_accepted_submission(ledger, attempt);
    }
}

/// The first guard that an authorised attempt on an open platform fails is the answer: no such
/// market, then a market that has ended, then an outcome that it does not offer, then a stake
/// below its minimum, then one above its maximum, then a prediction that already stands.
pub proof fn law_first_failed_guard_is_the_answer(ledger: Ledger, attempt: Attempt)
    requires
        attempt.call.admission is Ok,
        attempt.host.authorised.contains(attempt.request.predictor),
    ensures
        ({
            let request = attempt.request;
            let outcome = ledger.outcome(attempt);
            let known = ledger.markets.dom().contains(request.market_id);
            let market = ledger.markets[request.market_id];
            let open = known && attempt.call.now < market.end_time;
            let offered = open && exists|i: int|
                0 <= i < market.outcome_options.len() && #[trigger] market.outcome_options[i]
                    == request.chosen_outcome;
            let enough = offered && request.stake_amount >= market.min_stake;
            let bounded = enough && request.stake_amount <= market.max_stake;
            let stands = ledger.predictions.dom().contains((request.market_id, request.predictor));
            &&& !known ==> outcome == Outcome::Refused(InsightArenaError::MarketNotFound)
            &&& known && !open ==> outcome == Outcome::Refused(InsightArenaError::MarketExpired)
            &&& open && !offered ==> outcome == Outcome::Refused(InsightArenaError::InvalidOutcome)
            &&& offered && !enough ==> outcome == Outcome::Refused(InsightArenaError::StakeTooLow)
            &&& enough && !bounded ==> outcome == Outcome::Refused(InsightArenaError::StakeTooHigh)
            &&& bounded && stands ==> outcome == Outcome::Refused(
                InsightArenaError::AlreadyPredicted,
            )
            &&& !(bounded && !stands) ==> ledger.after_attempt(attempt) == ledger
        }),
{
    let request = attempt.request;
    let market = ledger.markets[request.market_id];
    let snapshot = ledger.snapshot(request.market_id, request.predictor);
    if request.refusal(snapshot, attempt.call.now) is Some {
        law_refused_submission_asks_for_nothing(ledger, attempt);
    }
    assert(market.outcome_options.contains(request.chosen_outcome) <==> exists|i: int|
        0 <= i < market.outcome_options.len() && #[trigger] market.outcome_options[i]
            == request.chosen_outcome);
}

/// Where a token is configured, an authorised attempt on an open platform is refused with the
/// error of a guard if and only if that guard is the first to fail, and with `Overflow` only if
/// none does.
pub proof fn law_guard_errors_mean_what_they_say(ledger: Ledger, attempt: Attempt)
    requires
        attempt.call.admission is Ok,
        attempt.host.authorised.contains(attempt.request.predictor),
        attempt.call.token is Ok,
    ensures
        ({
            let request = attempt.request;
            let outcome = ledger.outcome(attempt);
            let known = ledger.markets.dom().contains(request.market_id);
            let market = ledger.markets[request.market_id];
            let open = known && attempt.call.now < market.end_time;
            let offered = open && exists|i: int|
                0 <= i < market.outcome_options.len() && #[trigger] market.outcome_options[i]
                    == request.chosen_outcome;
            let enough = offered && request.stake_amount >= market.min_stake;
            let bounded = enough && request.stake_amount <= market.max_stake;
            let stands = ledger.predictions.dom().contains((request.market_id, request.predictor));
            let pool = market.total_pool + request.stake_amount;
            let had = ledger.profiles.dom().contains(request.predictor);
            let profile = ledger.profiles[request.predictor];
            let total = profile.total_staked + request.stake_amount;
            let fits = i128::MIN <= pool <= i128::MAX && market.participant_count < u32::MAX && (had
                ==> i128::MIN <= total <= i128::MAX && profile.total_predictions < u32::MAX);
            &&& outcome == Outcome::Refused(InsightArenaError::MarketNotFound) <==> !known
            &&& outcome == Outcome::Refused(InsightArenaError::MarketExpired) <==> known && !open
            &&& outcome == Outcome::Refused(InsightArenaError::InvalidOutcome) <==> open && !offered
            &&& outcome == Outcome::Refused(InsightArenaError::StakeTooLow) <==> offered && !enough
            &&& outcome == Outcome::Refused(InsightArenaError::StakeTooHigh) <==> enough && !bounded
            &&& outcome == Outcome::Refused(InsightArenaError::AlreadyPredicted) <==> bounded
                && stands
            &&& outcome == Outcome::Refused(InsightArenaError::Overflow) ==> bounded && !stands
                && !fits
            &&& outcome is Accepted ==> bounded && !stands && fits
            &&& outcome is Aborted ==> bounded && !stands
            &&& outcome != Outcome::Refused(InsightArenaError::Paused)
            &&& outcome != Outcome::Refused(InsightArenaError::NotInitialized)
        }),
{
    law_first_failed_guard_is_the_answer(ledger, attempt);
}

/// How an attempt ends that is stopped by something other than a guard. A closed platform says
/// why; a missing authorisation breaks the attempt off, before any guard; a missing configuration
/// is reported only where every guard is passed.
pub proof fn law_what_stops_an_attempt(ledger: Ledger, attempt: Attempt)
    ensures
        ({
            let request = attempt.request;
            let market = ledger.markets[request.market_id];
            let passed = ledger.markets.dom().contains(request.market_id) && attempt.call.now
                < market.end_time && (exists|i: int|
                0 <= i < market.outcome_options.len() && #[trigger] market.outcome_options[i]
                    == request.chosen_outcome) && market.min_stake <= request.stake_amount
                && request.stake_amount <= market.max_stake && !ledger.predictions.dom().contains(
                (request.market_id, request.predictor),
            );
            let authorised = attempt.host.authorised.contains(request.predictor);
            let admitted = attempt.call.admission is Ok;
            &&& attempt.call.admission matches Err(error) ==> ledger.outcome(attempt)
                == Outcome::Refused(error)
            &&& admitted && !authorised ==> ledger.outcome(attempt) == Outcome::Aborted
            &&& admitted && authorised && passed ==> (attempt.call.token matches Err(error)
                ==> ledger.outcome(attempt) == Outcome::Refused(error))
        }),
{
    let call = attempt.call;
    let request = attempt.request;
    let market = ledger.markets[request.market_id];
    let auth = EffectView::RequireAuth(request.predictor);
    let effects = ledger.submission_effects(call, request);
    assert(market.outcome_options.contains(request.chosen_outcome) <==> exists|i: int|
        0 <= i < market.outcome_options.len() && #[trigger] market.outcome_options[i]
            == request.chosen_outcome);
    if call.admission is Ok {
        crate::laws::lemma_first_effect_decides(ledger, attempt.host, auth, effects);
        if call.token is Err {
            assert(effects =~= seq![auth]);
        }
    }
}

/// On live entries, an authorised attempt that passes every guard is accepted if the token
/// permits the transfer, the predictor has the stake, the lifetimes can be had and the totals
/// fit; a total that does not fit is an `Overflow`; and anything else breaks it off.
pub proof fn law_passed_attempt_is_accepted(ledger: Ledger, attempt: Attempt, token: Seq<char>)
    requires
        attempt.host.sequence <= attempt.host.min_live_until,
        forall|key: DataKeyView| #[trigger]
            ledger.live_until.dom().contains(key) ==> attempt.host.sequence
                <= ledger.live_until[key],
        attempt.call.admission is Ok,
        attempt.host.authorised.contains(attempt.request.predictor),
        attempt.call.token == Ok::<_, InsightArenaError>(token),
        ledger.markets.dom().contains(attempt.request.market_id),
        attempt.call.now < ledger.markets[attempt.request.market_id].end_time,
        ledger.markets[attempt.request.market_id].outcome_options.contains(
            attempt.request.chosen_outcome,
        ),
        ledger.markets[attempt.request.market_id].min_stake <= attempt.request.stake_amount,
        attempt.request.stake_amount <= ledger.markets[attempt.request.market_id].max_stake,
        !ledger.predictions.dom().contains(
            (attempt.request.market_id, attempt.request.predictor),
        ),
    ensures
        ({
            let request = attempt.request;
            let market = ledger.markets[request.market_id];
            let funds = if ledger.balances.dom().contains((token, request.predictor)) {
                ledger.balances[(token, request.predictor)]
            } else {
                0
            };
            let moved = attempt.host.permitted.contains(
                TransferView {
                    token,
                    from: request.predictor,
                    to: attempt.call.contract,
                    amount: request.stake_amount,
                },
            ) && 0 <= request.stake_amount && request.stake_amount <= funds;
            let lasting = attempt.call.ttl.threshold <= attempt.call.ttl.bump
                && attempt.host.sequence + attempt.call.ttl.bump <= u32::MAX;
            let pool = market.total_pool + request.stake_amount;
            let had = ledger.profiles.dom().contains(request.predictor);
            let profile = ledger.profiles[request.predictor];
            let total = profile.total_staked + request.stake_amount;
            let fits = i128::MIN <= pool <= i128::MAX && market.participant_count < u32::MAX && (had
                ==> i128::MIN <= total <= i128::MAX && profile.total_predictions < u32::MAX);
            &&& ledger.outcome(attempt) is Aborted <==> !moved || !lasting
            &&& ledger.outcome(attempt) == Outcome::Refused(InsightArenaError::Overflow) <==> moved
                && lasting && !fits
            &&& ledger.outcome(attempt) is Accepted <==> moved && lasting && fits
        }),
{
    law_outcome(ledger, attempt);
    assert(held(ledger, token, attempt.request.predictor) == ledger.balance(
        token,
        attempt.request.predictor,
    ));
}

/// What is asked for comes behind what was asked for before, all of it, and changes nothing else
/// of the invocation.
pub proof fn law_asking_appends(call: InvocationView, more: Seq<EffectView>)
    ensures
        call.asking(more).effects == call.effects + more,
        call.asking(more).effects.len() == call.effects.len() + more.len(),
        forall|i: int|
            0 <= i < call.effects.len() ==> call.asking(more).effects[i] == call.effects[i],
        forall|i: int|
            0 <= i < more.len() ==> call.asking(more).effects[call.effects.len() + i] == more[i],
        call.asking(more).contract == call.contract,
        call.asking(more).now == call.now,
        call.asking(more).admission == call.admission,
        call.asking(more).token == call.token,
        call.asking(more).ttl == call.ttl,
{
}

/// Asking twice is asking once for both.
pub proof fn law_asking_twice(
    call: InvocationView,
    first: Seq<EffectView>,
    second: Seq<EffectView>,
)
    ensures
        call.asking(first).asking(second) == call.asking(first + second),
{
    assert(call.effects + first + second =~= call.effects + (first + second));
}

/// A bump names the entry and the lifetimes of the invocation.
pub proof fn law_bump_follows_the_policy(call: InvocationView, key: DataKeyView)
    ensures
        match call.bump(key) {
            EffectView::ExtendTtl { key: bumped, threshold, extend_to } => {
                &&& bumped == key
                &&& threshold == call.ttl.threshold
                &&& extend_to == call.ttl.bump
            },
            _ => false,
        },
{
}

/// A movement is one transfer of exactly the amount, from the one to the other, in the configured
/// token. Without a configuration nothing is moved, and the error says why.
pub proof fn law_movement_is_one_transfer(
    call: InvocationView,
    from: Seq<char>,
    to: Seq<char>,
    amount: i128,
)
    ensures
        match call.token {
            Ok(token) => {
                &&& movement_result(call) is Ok
                &&& movement(call, from, to, amount).len() == 1
                &&& match movement(call, from, to, amount)[0] {
                    EffectView::Transfer(transfer) => {
                        &&& transfer.token == token
                        &&& transfer.from == from
                        &&& transfer.to == to
                        &&& transfer.amount == amount
                    },
                    _ => false,
                }
            },
            Err(error) => {
                &&& movement_result(call) == Err::<(), InsightArenaError>(error)
                &&& movement(call, from, to, amount).len() == 0
            },
        },
{
}

/// What a submission asks for, one by one. A closed platform stops it before anything is asked
/// for; a failed guard or a missing configuration right behind the authorisation; a total of the
/// market that does not fit before the market is written; a total of the profile that does not
/// fit before the profile is. Nothing is asked for besides.
#[verifier::spinoff_prover]
pub proof fn law_submission_asks_for_this(
    call: InvocationView,
    stored: SnapshotView,
    request: Request,
)
    ensures
        ({
            let effects = request.effects(call, stored);
            let market = stored.market->0;
            let profile = stored.profile->0;
            let threshold = call.ttl.threshold;
            let extend_to = call.ttl.bump;
            let prediction_key = DataKeyView::Prediction(request.market_id, request.predictor);
            let list_key = DataKeyView::PredictorList(request.market_id);
            let market_key = DataKeyView::Market(request.market_id);
            let user_key = DataKeyView::User(request.predictor);
            let passed = stored.market is Some && call.now < market.end_time && (exists|i: int|
                0 <= i < market.outcome_options.len() && #[trigger] market.outcome_options[i]
                    == request.chosen_outcome) && market.min_stake <= request.stake_amount
                && request.stake_amount <= market.max_stake && !stored.already_predicted
                && call.token is Ok;
            let pool = market.total_pool + request.stake_amount;
            let total = profile.total_staked + request.stake_amount;
            let pool_fits = i128::MIN <= pool <= i128::MAX && market.participant_count < u32::MAX;
            let profile_fits = stored.profile is Some ==> i128::MIN <= total <= i128::MAX
                && profile.total_predictions < u32::MAX;
            &&& effects.len() == (if call.admission is Err {
                0int
            } else if !passed {
                1
            } else if !pool_fits {
                6
            } else if !profile_fits {
                8
            } else {
                11
            })
            &&& effects.len() > 0 ==> effects[0] == EffectView::RequireAuth(request.predictor)
            &&& effects.len() > 1 ==> {
                &&& effects[1] == EffectView::Transfer(
                    TransferView {
                        token: call.token->Ok_0,
                        from: request.predictor,
                        to: call.contract,
                        amount: request.stake_amount,
                    },
                )
                &&& effects[2] == EffectView::Store(
                    prediction_key,
                    RecordView::Prediction(
                        PredictionView {
                            market_id: request.market_id,
                            predictor: request.predictor,
                            chosen_outcome: request.chosen_outcome,
                            stake_amount: request.stake_amount,
                            submitted_at: call.now,
                            payout_claimed: false,
                            payout_amount: 0,
                        },
                    ),
                )
                &&& effects[3] == (EffectView::ExtendTtl {
                    key: prediction_key,
                    threshold,
                    extend_to,
                })
                &&& effects[4] == EffectView::Store(
                    list_key,
                    RecordView::PredictorList(
                        (match stored.predictors {
                            Some(predictors) => predictors,
                            None => Seq::<Seq<char>>::empty(),
                        }).push(request.predictor),
                    ),
                )
                &&& effects[5] == (EffectView::ExtendTtl { key: list_key, threshold, extend_to })
            }
            &&& effects.len() > 6 ==> {
                &&& effects[6] == EffectView::Store(
                    market_key,
                    RecordView::Market(
                        MarketView {
                            outcome_options: market.outcome_options,
                            end_time: market.end_time,
                            min_stake: market.min_stake,
                            max_stake: market.max_stake,
                            total_pool: pool as i128,
                            participant_count: (market.participant_count + 1) as u32,
                        },
                    ),
                )
                &&& effects[7] == (EffectView::ExtendTtl { key: market_key, threshold, extend_to })
            }
            &&& effects.len() > 8 ==> {
                &&& effects[8] == EffectView::Store(
                    user_key,
                    RecordView::User(
                        if stored.profile is Some {
                            UserProfileView {
                                address: profile.address,
                                total_predictions: (profile.total_predictions + 1) as u32,
                                total_staked: total as i128,
                                joined_at: profile.joined_at,
                            }
                        } else {
                            UserProfileView {
                                address: request.predictor,
                                total_predictions: 1,
                                total_staked: request.stake_amount,
                                joined_at: call.now,
                            }
                        },
                    ),
                )
                &&& effects[9] == (EffectView::ExtendTtl { key: user_key, threshold, extend_to })
                &&& effects[10] == EffectView::Publish(
                    PredictionSubmittedView {
                        topics: ("pred"@, "submitd"@),
                        market_id: request.market_id,
                        predictor: request.predictor,
                        outcome: request.chosen_outcome,
                        amount: request.stake_amount,
                    },
                )
            }
        }),
{
    let market = stored.market->0;
    assert(market.outcome_options.contains(request.chosen_outcome) <==> exists|i: int|
        0 <= i < market.outcome_options.len() && #[trigger] market.outcome_options[i]
            == request.chosen_outcome);
    assert(Seq::<Seq<char>>::empty().push(request.predictor) =~= seq![request.predictor]);
}

/// The four entries of an accepted attempt are alive, for as long as they were or for as long as
/// was asked for, within what the host allows: one with more than `threshold` ledgers to go, new
/// or not, keeps what it has. No other lifetime differs.
pub proof fn law_entries_are_kept_alive(ledger: Ledger, attempt: Attempt, key: DataKeyView)
    requires
        ledger.outcome(attempt) is Accepted,
    ensures
        ({
            let request = attempt.request;
            let host = attempt.host;
            let after = ledger.after_attempt(attempt);
            let own = key == DataKeyView::Prediction(request.market_id, request.predictor) || key
                == DataKeyView::PredictorList(request.market_id) || key == DataKeyView::Market(
                request.market_id,
            ) || key == DataKeyView::User(request.predictor);
            let start = if ledger.live_until.dom().contains(key) {
                ledger.live_until[key]
            } else {
                host.min_live_until
            };
            let asked = host.sequence + attempt.call.ttl.bump;
            let granted = if asked <= host.max_live_until {
                asked
            } else {
                host.max_live_until as int
            };
            let end = after.live_until[key];
            &&& own ==> {
                &&& after.live_until.dom().contains(key)
                &&& host.sequence <= end
                &&& start <= end
                &&& start > host.sequence + attempt.call.ttl.threshold ==> end == start
                &&& start <= host.sequence + attempt.call.ttl.threshold && start <= granted ==> end
                    == granted
                &&& start > granted ==> end == start
            }
            &&& !own ==> {
                &&& after.live_until.dom().contains(key) == ledger.live_until.dom().contains(key)
                &&& after.live_until[key] == ledger.live_until[key]
            }
        }),
{
    crate::laws::lemma_accepted_entries_were_renewable(ledger, attempt);
    law_accepted_submission(ledger, attempt);
}

/// What a submission reads is what stands on the ledger.
pub proof fn law_snapshot_reads_the_ledger(ledger: Ledger, market_id: u64, predictor: Seq<char>)
    ensures
        ({
            let read = ledger.snapshot(market_id, predictor);
            &&& read.market is Some <==> ledger.markets.dom().contains(market_id)
            &&& read.market matches Some(market) ==> market == ledger.markets[market_id]
            &&& read.already_predicted <==> ledger.predictions.dom().contains(
                (market_id, predictor),
            )
            &&& read.predictors is Some <==> ledger.predictors.dom().contains(market_id)
            &&& read.predictors matches Some(list) ==> list == ledger.predictors[market_id]
            &&& read.profile is Some <==> ledger.profiles.dom().contains(predictor)
            &&& read.profile matches Some(profile) ==> profile == ledger.profiles[predictor]
        }),
{
}

/// What the host does with each effect: an authorisation is there or the invocation is broken
/// off; a transfer is permitted and covered or the invocation is broken off; an event goes behind
/// all earlier ones; and none of these touches an entry.
pub proof fn law_host_carries_effects_out(
    ledger: Ledger,
    host: Host,
    address: Seq<char>,
    transfer: TransferView,
    event: PredictionSubmittedView,
)
    ensures
        ({
            let funds = if ledger.balances.dom().contains((transfer.token, transfer.from)) {
                ledger.balances[(transfer.token, transfer.from)]
            } else {
                0
            };
            let authorising = ledger.after_effect(host, EffectView::RequireAuth(address));
            let moving = ledger.after_effect(host, EffectView::Transfer(transfer));
            let telling = ledger.after_effect(host, EffectView::Publish(event));
            &&& authorising is Some <==> host.authorised.contains(address)
            &&& authorising matches Some(after) ==> after == ledger
            &&& moving is Some <==> host.permitted.contains(transfer) && 0 <= transfer.amount
                && transfer.amount <= funds
            &&& moving matches Some(after) ==> {
                &&& after.markets == ledger.markets
                &&& after.predictions == ledger.predictions
                &&& after.predictors == ledger.predictors
                &&& after.profiles == ledger.profiles
                &&& after.live_until == ledger.live_until
                &&& after.events == ledger.events
                &&& transfer.from != transfer.to ==> after.balances[(transfer.token, transfer.from)]
                    == funds - transfer.amount
            }
            &&& telling is Some
            &&& telling->0.events == ledger.events.push(event)
            &&& telling->0.balances == ledger.balances
            &&& telling->0.markets == ledger.markets
            &&& telling->0.predictions == ledger.predictions
            &&& telling->0.predictors == ledger.predictors
            &&& telling->0.profiles == ledger.profiles
            &&& telling->0.live_until == ledger.live_until
        }),
{
}

/// An invocation counts only if everything that it asked for could be done and it returned no
/// error. Otherwise it leaves the ledger as it was.
pub proof fn law_invocation_counts_as_a_whole(
    ledger: Ledger,
    host: Host,
    result: Result<(), InsightArenaError>,
    effects: Seq<EffectView>,
)
    ensures
        ({
            let outcome = ledger.invocation_outcome(host, result, effects);
            let after = ledger.after_invocation(host, result, effects);
            let done = ledger.after_effects(host, effects);
            &&& outcome is Accepted <==> done is Some && result is Ok
            &&& outcome is Aborted <==> done is None
            &&& outcome is Refused <==> done is Some && result is Err
            &&& outcome matches Outcome::Refused(error) ==> result == Err::<(), _>(error)
            &&& done is Some && result is Ok ==> after == done->0
            &&& done is None || result is Err ==> after == ledger
        }),
{
}

/// The sum over a choice of predictions grows by the stake of a new prediction that is chosen,
/// the count by one, and neither by any other.
pub proof fn law_sums_follow_the_predictions(
    predictions: Map<(u64, Seq<char>), PredictionView>,
    key: (u64, Seq<char>),
    prediction: PredictionView,
    market_id: u64,
    predictor: Seq<char>,
)
    requires
        predictions.dom().finite(),
        !predictions.dom().contains(key),
    ensures
        ({
            let more = predictions.insert(key, prediction);
            let all = Selection::All;
            let on = Selection::OnMarket(market_id);
            let by = Selection::By(predictor);
            &&& all.stake(more) == all.stake(predictions) + prediction.stake_amount
            &&& all.count(more) == all.count(predictions) + 1
            &&& key.0 == market_id ==> on.stake(more) == on.stake(predictions)
                + prediction.stake_amount && on.count(more) == on.count(predictions) + 1
            &&& key.0 != market_id ==> on.stake(more) == on.stake(predictions) && on.count(more)
                == on.count(predictions)
            &&& key.1 == predictor ==> by.stake(more) == by.stake(predictions)
                + prediction.stake_amount && by.count(more) == by.count(predictions) + 1
            &&& key.1 != predictor ==> by.stake(more) == by.stake(predictions) && by.count(more)
                == by.count(predictions)
            &&& all.stake(Map::empty()) == 0 && all.count(Map::empty()) == 0
            &&& on.stake(Map::empty()) == 0 && on.count(Map::empty()) == 0
            &&& by.stake(Map::empty()) == 0 && by.count(Map::empty()) == 0
        }),
{
    crate::laws::lemma_selection_insert(Selection::All, predictions, key, prediction);
    crate::laws::lemma_selection_insert(
        Selection::OnMarket(market_id),
        predictions,
        key,
        prediction,
    );
    crate::laws::lemma_selection_insert(Selection::By(predictor), predictions, key, prediction);
}

/// The mathematical content of an address or a symbol is its text; that of a record is the
/// record's own fields.
pub proof fn law_records_show_their_fields(
    address: Address,
    symbol: Symbol,
    market: Market,
    prediction: Prediction,
    profile: UserProfile,
)
    ensures
        address@ == address.strkey@,
        symbol@ == symbol.text@,
        market@.outcome_options.len() == market.outcome_options@.len(),
        forall|i: int|
            0 <= i < market.outcome_options@.len() ==> #[trigger] market@.outcome_options[i]
                == market.outcome_options@[i].text@,
        market@.end_time == market.end_time,
        market@.min_stake == market.min_stake,
        market@.max_stake == market.max_stake,
        market@.total_pool == market.total_pool,
        market@.participant_count == market.participant_count,
        prediction@.market_id == prediction.market_id,
        prediction@.predictor == prediction.predictor.strkey@,
        prediction@.chosen_outcome == prediction.chosen_outcome.text@,
        prediction@.stake_amount == prediction.stake_amount,
        prediction@.submitted_at == prediction.submitted_at,
        prediction@.payout_claimed == prediction.payout_claimed,
        prediction@.payout_amount == prediction.payout_amount,
        profile@.address == profile.address.strkey@,
        profile@.total_predictions == profile.total_predictions,
        profile@.total_staked == profile.total_staked,
        profile@.joined_at == profile.joined_at,
{
}

/// The mathematical content of an effect names the same thing to do, with the same key, record,
/// holders, amount, lifetimes and event.
pub proof fn law_effects_show_their_fields(effect: Effect)
    ensures
        match effect {
            Effect::RequireAuth(address) => effect@ == EffectView::RequireAuth(address.strkey@),
            Effect::Transfer(transfer) => effect@ == EffectView::Transfer(
                TransferView {
                    token: transfer.token.strkey@,
                    from: transfer.from.strkey@,
                    to: transfer.to.strkey@,
                    amount: transfer.amount,
                },
            ),
            Effect::Store(key, record) => {
                &&& effect@ is Store
                &&& match key {
                    DataKey::Market(id) => effect@->Store_0 == DataKeyView::Market(id),
                    DataKey::Prediction(id, who) => effect@->Store_0 == DataKeyView::Prediction(
                        id,
                        who.strkey@,
                    ),
                    DataKey::PredictorList(id) => effect@->Store_0 == DataKeyView::PredictorList(
                        id,
                    ),
                    DataKey::User(who) => effect@->Store_0 == DataKeyView::User(who.strkey@),
                }
                &&& match record {
                    Record::Market(market) => effect@->Store_1 == RecordView::Market(market@),
                    Record::Prediction(prediction) => effect@->Store_1 == RecordView::Prediction(
                        prediction@,
                    ),
                    Record::PredictorList(list) => match effect@->Store_1 {
                        RecordView::PredictorList(shown) => {
                            &&& shown.len() == list@.len()
                            &&& forall|i: int|
                                0 <= i < list@.len() ==> #[trigger] shown[i] == list@[i].strkey@
                        },
                        _ => false,
                    },
                    Record::User(profile) => effect@->Store_1 == RecordView::User(profile@),
                }
            },
            Effect::ExtendTtl { key, threshold, extend_to } => effect@ == (EffectView::ExtendTtl {
                key: key@,
                threshold,
                extend_to,
            }),
            Effect::Publish(event) => effect@ == EffectView::Publish(
                PredictionSubmittedView {
                    topics: (event.topics.0.text@, event.topics.1.text@),
                    market_id: event.market_id,
                    predictor: event.predictor.strkey@,
                    outcome: event.outcome.text@,
                    amount: event.amount,
                },
            ),
        },
{
}

/// The mathematical content of an invocation is what was read for it, and each effect that it has
/// asked for, in order.
pub proof fn law_invocations_show_their_fields(call: Invocation)
    ensures
        call@.contract == call.contract.strkey@,
        call@.now == call.now,
        call@.admission == call.admission,
        call.config matches Ok(config) ==> call@.token == Ok::<Seq<char>, InsightArenaError>(
            config.xlm_token.strkey@,
        ),
        call.config matches Err(error) ==> call@.token == Err::<Seq<char>, _>(error),
        call@.ttl == call.ttl,
        call@.effects.len() == call.effects@.len(),
        forall|i: int|
            0 <= i < call.effects@.len() ==> #[trigger] call@.effects[i] == call.effects@[i]@,
{
}

/// Extending a lifetime never cuts it short. It leaves alone what has more than `threshold`
/// ledgers to go, and brings all else to `extend_to` ledgers or to what the host allows.
pub proof fn law_lifetime_is_extended_as_asked(
    host: Host,
    live_until: u32,
    threshold: u32,
    extend_to: u32,
)
    requires
        host.can_extend(live_until, threshold, extend_to),
    ensures
        ({
            let end = host.extended(live_until, threshold, extend_to);
            let short = live_until <= host.sequence + threshold;
            &&& host.sequence <= live_until && threshold <= extend_to && host.sequence + extend_to
                <= u32::MAX
            &&& live_until <= end
            &&& !short ==> end == live_until
            &&& short ==> end >= host.sequence + extend_to || end >= host.max_live_until
            &&& end > live_until ==> end <= host.sequence + extend_to && end <= host.max_live_until
        }),
{
}

/// What it means that the books balance: the pool of each market is the sum of the stakes on it,
/// its count is the number of predictions on it and the length of its list, its list names each
/// predictor once, and each profile holds its user's own totals.
pub proof fn law_balanced_books_agree(ledger: Ledger, market_id: u64, user: Seq<char>)
    requires
        ledger.books_balance(),
    ensures
        ledger.markets.dom().contains(market_id) ==> {
            let market = ledger.markets[market_id];
            let listed = if ledger.predictors.dom().contains(market_id) {
                ledger.predictors[market_id]
            } else {
                Seq::<Seq<char>>::empty()
            };
            &&& market.total_pool == Selection::OnMarket(market_id).stake(ledger.predictions)
            &&& market.participant_count == Selection::OnMarket(market_id).count(ledger.predictions)
            &&& market.participant_count == listed.len()
            &&& forall|i: int, j: int|
                0 <= i < listed.len() && 0 <= j < listed.len() && i != j ==> listed[i] != listed[j]
            &&& listed.contains(user) <==> ledger.predictions.dom().contains((market_id, user))
        },
        ledger.profiles.dom().contains(user) ==> {
            let profile = ledger.profiles[user];
            &&& profile.address == user
            &&& profile.total_staked == Selection::By(user).stake(ledger.predictions)
            &&& profile.total_predictions == Selection::By(user).count(ledger.predictions)
        },
        ledger.predictions.dom().contains((market_id, user)) ==> {
            &&& ledger.markets.dom().contains(market_id)
            &&& ledger.profiles.dom().contains(user)
            &&& ledger.predictions[(market_id, user)].market_id == market_id
            &&& ledger.predictions[(market_id, user)].predictor == user
        },
{
}

/// A history is its attempts one after the other, each on the ledger that the earlier ones left.
pub proof fn law_history_goes_one_by_one(ledger: Ledger, history: Seq<Attempt>, next: Attempt)
    ensures
        after_history(ledger, Seq::empty()) == ledger,
        after_history(ledger, history.push(next)) == after_history(ledger, history).after_attempt(
            next,
        ),
{
    assert(history.push(next).drop_last() =~= history);
}

} // verus!
