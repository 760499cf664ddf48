//! What always holds of submissions and of the stakes in custody.

use vstd::prelude::*;

use crate::errors::InsightArenaError;
use crate::escrow::{movement, movement_result};
use crate::host::{Attempt, Host, Outcome};
use crate::invocation::{EffectView, InvocationView, TransferView};
use crate::ledger::{lookup, Ledger, Selection};
use crate::prediction::{Request, SnapshotView};
use crate::storage_types::{DataKeyView, MarketView, PredictionView, RecordView, UserProfileView};

verus! {

/// The ledger after more effects, where the earlier ones have not broken the invocation off.
spec fn onward(reached: Option<Ledger>, host: Host, effects: Seq<EffectView>) -> Option<Ledger> {
    match reached {
        Some(ledger) => ledger.after_effects(host, effects),
        None => None,
    }
}

/// Effects that follow each other may be carried out in two parts.
proof fn lemma_after_effects_add(
    ledger: Ledger,
    host: Host,
    first: Seq<EffectView>,
    second: Seq<EffectView>,
)
    ensures
        ledger.after_effects(host, first + second) == onward(
            ledger.after_effects(host, first),
            host,
            second,
        ),
    decreases second.len(),
{
    if second.len() == 0 {
        assert(first + second =~= first);
    } else {
        lemma_after_effects_add(ledger, host, first, second.drop_last());
        assert((first + second).drop_last() =~= first + second.drop_last());
        assert((first + second).last() == second.last());
    }
}

/// A single effect is carried out as such.
proof fn lemma_after_one_effect(ledger: Ledger, host: Host, effect: EffectView)
    ensures
        ledger.after_effects(host, seq![effect]) == ledger.after_effect(host, effect),
{
    reveal_with_fuel(Ledger::after_effects, 2);
    assert(seq![effect].drop_last() =~= seq![]);
}

/// An invocation whose first effect breaks it off is broken off, and one with a single effect is
/// what that effect makes of it.
pub(crate) proof fn lemma_first_effect_decides(
    ledger: Ledger,
    host: Host,
    first: EffectView,
    effects: Seq<EffectView>,
)
    requires
        effects.len() > 0,
        effects[0] == first,
    ensures
        ledger.after_effect(host, first) is None ==> ledger.after_effects(host, effects) is None,
        effects.len() == 1 ==> ledger.after_effects(host, effects) == ledger.after_effect(
            host,
            first,
        ),
{
    let rest = effects.skip(1);
    assert(effects =~= seq![first] + rest);
    lemma_after_effects_add(ledger, host, seq![first], rest);
    lemma_after_one_effect(ledger, host, first);
    if effects.len() == 1 {
        assert(effects =~= seq![first]);
    }
}

/// Two effects are carried out one after the other.
proof fn lemma_after_two_effects(ledger: Ledger, host: Host, first: EffectView, second: EffectView)
    ensures
        ledger.after_effects(host, seq![first, second]) == (match ledger.after_effect(host, first) {
            Some(between) => between.after_effect(host, second),
            None => None,
        }),
{
    lemma_after_one_effect(ledger, host, first);
    assert(seq![first, second].drop_last() =~= seq![first]);
}

/// A record that is written and at once kept alive.
proof fn lemma_after_write(ledger: Ledger, attempt: Attempt, key: DataKeyView, record: RecordView)
    requires
        belongs_under(key, record),
    ensures
        ledger.after_effects(
            attempt.host,
            seq![EffectView::Store(key, record), attempt.call.bump(key)],
        ) == (if ledger.can_renew(attempt, key) {
            Some(ledger.written(attempt, key, record))
        } else {
            None
        }),
{
    let store = EffectView::Store(key, record);
    lemma_after_two_effects(ledger, attempt.host, store, attempt.call.bump(key));
    if ledger.can_renew(attempt, key) {
        let stored = ledger.stored(attempt.host, key, record);
        assert(stored.live_until.insert(key, ledger.renewed(attempt, key))
            =~= ledger.live_until.insert(key, ledger.renewed(attempt, key)));
    }
}

/// The writes that record a prediction and its predictor.
proof fn lemma_after_entry(ledger: Ledger, attempt: Attempt, snapshot: SnapshotView)
    ensures
        ({
            let request = attempt.request;
            let prediction_key = DataKeyView::Prediction(request.market_id, request.predictor);
            let list_key = DataKeyView::PredictorList(request.market_id);
            ledger.after_effects(
                attempt.host,
                request.entry_effects(attempt.call, snapshot),
            ) == (if ledger.can_renew(attempt, prediction_key) && ledger.can_renew(
                attempt,
                list_key,
            ) {
                Some(entered(ledger, attempt, snapshot))
            } else {
                None
            })
        }),
{
    let request = attempt.request;
    let call = attempt.call;
    let prediction_key = DataKeyView::Prediction(request.market_id, request.predictor);
    let list_key = DataKeyView::PredictorList(request.market_id);
    let prediction = RecordView::Prediction(request.prediction(call.now));
    let list = RecordView::PredictorList(request.joined_list(snapshot));
    let first = seq![EffectView::Store(prediction_key, prediction), call.bump(prediction_key)];
    let second = seq![EffectView::Store(list_key, list), call.bump(list_key)];
    assert(request.entry_effects(call, snapshot) =~= first + second);
    lemma_after_effects_add(ledger, attempt.host, first, second);
    lemma_after_write(ledger, attempt, prediction_key, prediction);
    lemma_after_write(
        ledger.written(attempt, prediction_key, prediction),
        attempt,
        list_key,
        list,
    );
}

/// A ledger with the prediction of an attempt and its predictor on it.
spec fn entered(ledger: Ledger, attempt: Attempt, snapshot: SnapshotView) -> Ledger {
    let request = attempt.request;
    ledger.written(
        attempt,
        DataKeyView::Prediction(request.market_id, request.predictor),
        RecordView::Prediction(request.prediction(attempt.call.now)),
    ).written(
        attempt,
        DataKeyView::PredictorList(request.market_id),
        RecordView::PredictorList(request.joined_list(snapshot)),
    )
}

/// A ledger with a market on it that the predictor of an attempt has joined.
spec fn pooled(ledger: Ledger, attempt: Attempt, joined: MarketView) -> Ledger {
    ledger.written(
        attempt,
        DataKeyView::Market(attempt.request.market_id),
        RecordView::Market(joined),
    )
}

/// A ledger with the predictor's profile of an attempt on it, and the event published.
spec fn credited(ledger: Ledger, attempt: Attempt, profile: UserProfileView) -> Ledger {
    let updated = ledger.written(
        attempt,
        DataKeyView::User(attempt.request.predictor),
        RecordView::User(profile),
    );
    Ledger { events: updated.events.push(attempt.request.event()), ..updated }
}

/// The writes that update a profile, and the event.
proof fn lemma_after_profile(ledger: Ledger, attempt: Attempt, profile: UserProfileView)
    ensures
        ledger.after_effects(
            attempt.host,
            attempt.request.profile_effects(attempt.call, profile),
        ) == (if ledger.can_renew(attempt, DataKeyView::User(attempt.request.predictor)) {
            Some(credited(ledger, attempt, profile))
        } else {
            None
        }),
{
    let key = DataKeyView::User(attempt.request.predictor);
    let record = RecordView::User(profile);
    let publish = EffectView::Publish(attempt.request.event());
    let write = seq![EffectView::Store(key, record), attempt.call.bump(key)];
    assert(attempt.request.profile_effects(attempt.call, profile) =~= write + seq![publish]);
    lemma_after_effects_add(ledger, attempt.host, write, seq![publish]);
    lemma_after_write(ledger, attempt, key, record);
    lemma_after_one_effect(ledger.written(attempt, key, record), attempt.host, publish);
}

/// The beginning of a submission that the platform admits and no guard refuses: authorisation,
/// the stake into custody, and the entries.
proof fn lemma_after_entering(ledger: Ledger, attempt: Attempt, snapshot: SnapshotView)
    requires
        attempt.call.token is Ok,
    ensures
        ({
            let request = attempt.request;
            let call = attempt.call;
            let auth = seq![EffectView::RequireAuth(request.predictor)];
            let lock = movement(call, request.predictor, call.contract, request.stake_amount);
            let prediction_key = DataKeyView::Prediction(request.market_id, request.predictor);
            let list_key = DataKeyView::PredictorList(request.market_id);
            ledger.after_effects(
                attempt.host,
                auth + (lock + request.entry_effects(call, snapshot)),
            ) == (if attempt.is_authorised() && ledger.moves(attempt.host, attempt.stake())
                && ledger.can_renew(attempt, prediction_key) && ledger.can_renew(
                attempt,
                list_key,
            ) {
                Some(entered(ledger.transferred(attempt.stake()), attempt, snapshot))
            } else {
                None
            })
        }),
{
    let request = attempt.request;
    let call = attempt.call;
    let auth = EffectView::RequireAuth(request.predictor);
    let transfer = EffectView::Transfer(attempt.stake());
    let entry = request.entry_effects(call, snapshot);
    let lock = movement(call, request.predictor, call.contract, request.stake_amount);
    assert(lock == seq![transfer]);
    lemma_after_effects_add(ledger, attempt.host, seq![auth], lock + entry);
    lemma_after_one_effect(ledger, attempt.host, auth);
    lemma_after_effects_add(ledger, attempt.host, lock, entry);
    lemma_after_one_effect(ledger, attempt.host, transfer);
    lemma_after_entry(ledger.transferred(attempt.stake()), attempt, snapshot);
}

/// The effects of a submission that the platform admits, carried out: `None` where it is broken
/// off, and otherwise the ledger that it has reached.
#[verifier::spinoff_prover]
proof fn lemma_after_submission_effects(ledger: Ledger, attempt: Attempt)
    requires
        ledger.submission_result(attempt.call, attempt.request) is Ok,
    ensures
        ({
            let request = attempt.request;
            let call = attempt.call;
            let snapshot = ledger.snapshot(request.market_id, request.predictor);
            let joined = request.joined_market(snapshot.market->0)->0;
            let profile = request.credited(request.profile_before(snapshot, call.now))->0;
            let renewable = ledger.can_renew(
                attempt,
                DataKeyView::Prediction(request.market_id, request.predictor),
            ) && ledger.can_renew(attempt, DataKeyView::PredictorList(request.market_id))
                && ledger.can_renew(attempt, DataKeyView::Market(request.market_id))
                && ledger.can_renew(attempt, DataKeyView::User(request.predictor));
            ledger.after_effects(attempt.host, ledger.submission_effects(call, request)) == (if
            attempt.is_authorised() && ledger.moves(attempt.host, attempt.stake()) && renewable {
                let begun = entered(ledger.transferred(attempt.stake()), attempt, snapshot);
                Some(credited(pooled(begun, attempt, joined), attempt, profile))
            } else {
                None
            })
        }),
{
    let request = attempt.request;
    let call = attempt.call;
    let host = attempt.host;
    let snapshot = ledger.snapshot(request.market_id, request.predictor);
    let joined = request.joined_market(snapshot.market->0)->0;
    let profile = request.credited(request.profile_before(snapshot, call.now))->0;
    let auth = seq![EffectView::RequireAuth(request.predictor)];
    let lock = movement(call, request.predictor, call.contract, request.stake_amount);
    let start = auth + (lock + request.entry_effects(call, snapshot));
    let pool = request.market_effects(call, joined);
    let credit = request.profile_effects(call, profile);
    assert(ledger.submission_effects(call, request) =~= (start + pool) + credit);
    lemma_after_effects_add(ledger, host, start + pool, credit);
    lemma_after_effects_add(ledger, host, start, pool);
    lemma_after_entering(ledger, attempt, snapshot);
    let begun = entered(ledger.transferred(attempt.stake()), attempt, snapshot);
    let market_key = DataKeyView::Market(request.market_id);
    lemma_after_write(begun, attempt, market_key, RecordView::Market(joined));
    lemma_after_profile(pooled(begun, attempt, joined), attempt, profile);
}

/// The host could keep alive every entry that an accepted attempt has written.
pub(crate) proof fn lemma_accepted_entries_were_renewable(ledger: Ledger, attempt: Attempt)
    requires
        ledger.outcome(attempt) is Accepted,
    ensures
        ({
            let request = attempt.request;
            &&& ledger.can_renew(
                attempt,
                DataKeyView::Prediction(request.market_id, request.predictor),
            )
            &&& ledger.can_renew(attempt, DataKeyView::PredictorList(request.market_id))
            &&& ledger.can_renew(attempt, DataKeyView::Market(request.market_id))
            &&& ledger.can_renew(attempt, DataKeyView::User(request.predictor))
        }),
{
    lemma_after_submission_effects(ledger, attempt);
}

/// The ledger that an accepted submission leaves: the stake in custody, the prediction under
/// its key, the predictor at the end of the market's list, the market and the profile with
/// their new totals, the four entries kept alive, and the event behind all earlier ones.
/// Nothing else differs. The predictor has authorised it, and the token has moved the stake.
#[verifier::spinoff_prover]
pub proof fn law_accepted_submission(ledger: Ledger, attempt: Attempt)
    requires
        ledger.outcome(attempt) is Accepted,
    ensures
        attempt.is_authorised(),
        attempt.call.token is Ok,
        ledger.moves(attempt.host, attempt.stake()),
        ledger.markets.dom().contains(attempt.request.market_id),
        ({
            let request = attempt.request;
            let now = attempt.call.now;
            let snapshot = ledger.snapshot(request.market_id, request.predictor);
            let market = ledger.markets[request.market_id];
            let profile = request.profile_before(snapshot, now);
            let prediction_key = DataKeyView::Prediction(request.market_id, request.predictor);
            let list_key = DataKeyView::PredictorList(request.market_id);
            let market_key = DataKeyView::Market(request.market_id);
            let user_key = DataKeyView::User(request.predictor);
            &&& request.joined_market(market) is Some
            &&& request.credited(profile) is Some
            &&& ledger.after_attempt(attempt) == (Ledger {
                markets: ledger.markets.insert(
                    request.market_id,
                    request.joined_market(market)->0,
                ),
                predictions: ledger.predictions.insert(
                    (request.market_id, request.predictor),
                    request.prediction(now),
                ),
                predictors: ledger.predictors.insert(
                    request.market_id,
                    ledger.predictors_of(request.market_id).push(request.predictor),
                ),
                profiles: ledger.profiles.insert(request.predictor, request.credited(profile)->0),
                live_until: ledger.live_until.insert(
                    prediction_key,
                    ledger.renewed(attempt, prediction_key),
                ).insert(list_key, ledger.renewed(attempt, list_key)).insert(
                    market_key,
                    ledger.renewed(attempt, market_key),
                ).insert(user_key, ledger.renewed(attempt, user_key)),
                balances: ledger.transferred(attempt.stake()).balances,
                events: ledger.events.push(request.event()),
            })
        }),
{
    lemma_after_submission_effects(ledger, attempt);
    let request = attempt.request;
    let snapshot = ledger.snapshot(request.market_id, request.predictor);
    assert(request.joined_list(snapshot) =~= ledger.predictors_of(request.market_id).push(
        request.predictor,
    ));
}

/// On a ledger with only live entries, an attempt can keep any entry alive that it writes, if
/// the lifetimes it asks for can be had at all.
proof fn lemma_live_entries_can_be_renewed(ledger: Ledger, attempt: Attempt)
    requires
        attempt.host.valid(),
        ledger.alive_at(attempt.host.sequence),
    ensures
        forall|key: DataKeyView| #[trigger]
            ledger.can_renew(attempt, key) <==> attempt.ttl_fits(),
{
}

/// How an attempt ends, in the order in which things are tried. A closed platform refuses it
/// before anything else. Without the predictor's authorisation it is broken off, whatever else
/// is wrong with it. A guard that fails, or a missing configuration, refuses it. A stake that
/// the token does not move breaks it off, as does a lifetime that cannot be had. A total that
/// leaves its type refuses it. All others are accepted.
#[verifier::spinoff_prover]
pub proof fn law_outcome(ledger: Ledger, attempt: Attempt)
    requires
        attempt.host.valid(),
        ledger.alive_at(attempt.host.sequence),
    ensures
        ({
            let call = attempt.call;
            let request = attempt.request;
            let snapshot = ledger.snapshot(request.market_id, request.predictor);
            ledger.outcome(attempt) == (match call.admission {
                Err(error) => Outcome::Refused(error),
                Ok(_) => if !attempt.is_authorised() {
                    Outcome::Aborted
                } else {
                    match request.refusal(snapshot, call.now) {
                        Some(error) => Outcome::Refused(error),
                        None => match call.token {
                            Err(error) => Outcome::Refused(error),
                            Ok(_) => if !ledger.moves(attempt.host, attempt.stake())
                                || !attempt.ttl_fits() {
                                Outcome::Aborted
                            } else if request.joined_market(snapshot.market->0) is None
                                || request.credited(request.profile_before(snapshot, call.now)) is
                                None {
                                Outcome::Refused(InsightArenaError::Overflow)
                            } else {
                                Outcome::Accepted
                            },
                        },
                    }
                },
            })
        }),
{
    let call = attempt.call;
    let request = attempt.request;
    let host = attempt.host;
    let snapshot = ledger.snapshot(request.market_id, request.predictor);
    let effects = ledger.submission_effects(call, request);
    let auth = EffectView::RequireAuth(request.predictor);
    lemma_live_entries_can_be_renewed(ledger, attempt);
    if call.admission is Ok {
        if request.refusal(snapshot, call.now) is Some || call.token is Err {
            assert(effects =~= seq![auth]);
            lemma_after_one_effect(ledger, host, auth);
        } else if ledger.submission_result(call, request) is Ok {
            lemma_after_submission_effects(ledger, attempt);
        } else {
            let lock = movement(call, request.predictor, call.contract, request.stake_amount);
            let start = seq![auth] + (lock + request.entry_effects(call, snapshot));
            lemma_after_entering(ledger, attempt, snapshot);
            match request.joined_market(snapshot.market->0) {
                None => {
                    assert(effects =~= start);
                },
                Some(joined) => {
                    let pool = request.market_effects(call, joined);
                    let begun = entered(ledger.transferred(attempt.stake()), attempt, snapshot);
                    assert(effects =~= start + pool);
                    lemma_after_effects_add(ledger, host, start, pool);
                    lemma_after_write(
                        begun,
                        attempt,
                        DataKeyView::Market(request.market_id),
                        RecordView::Market(joined),
                    );
                },
            }
        }
    }
}

/// If authorised and not refused by the token, a submission is accepted exactly when the
/// platform takes requests, every guard is passed, a token is configured and no total leaves
/// its type; if not authorised, or refused by the token, it never is. Both bounds of the stake
/// are inclusive. The lifetimes that it asks for have to be such that the host can grant them.
pub proof fn law_submission_succeeds_iff(ledger: Ledger, attempt: Attempt)
    requires
        attempt.host.valid(),
        ledger.alive_at(attempt.host.sequence),
    ensures
        ledger.outcome(attempt) is Accepted <==> {
            let call = attempt.call;
            let request = attempt.request;
            let market = ledger.markets[request.market_id];
            let profile = request.profile_before(
                ledger.snapshot(request.market_id, request.predictor),
                call.now,
            );
            &&& attempt.is_authorised()
            &&& ledger.moves(attempt.host, attempt.stake())
            &&& attempt.ttl_fits()
            &&& call.admission is Ok
            &&& ledger.markets.dom().contains(request.market_id)
            &&& call.now < market.end_time
            &&& market.outcome_options.contains(request.chosen_outcome)
            &&& market.min_stake <= request.stake_amount <= market.max_stake
            &&& !ledger.predictions.dom().contains((request.market_id, request.predictor))
            &&& call.token is Ok
            &&& i128::MIN <= market.total_pool + request.stake_amount <= i128::MAX
            &&& market.participant_count < u32::MAX
            &&& profile.total_predictions < u32::MAX
            &&& i128::MIN <= profile.total_staked + request.stake_amount <= i128::MAX
        },
{
    law_outcome(ledger, attempt);
}

/// Unless the predictor has authorised a submission and the token moves the stake, the ledger
/// stays as it was.
pub proof fn law_nothing_changes_unless_authorised_and_moved(ledger: Ledger, attempt: Attempt)
    requires
        !attempt.is_authorised() || !ledger.moves(attempt.host, attempt.stake()),
    ensures
        !(ledger.outcome(attempt) is Accepted),
        ledger.after_attempt(attempt) == ledger,
{
    if ledger.outcome(attempt) is Accepted {
        law_accepted_submission(ledger, attempt);
    }
}

/// A predictor who has less than the stake is never accepted and loses nothing.
pub proof fn law_stake_must_be_covered(ledger: Ledger, attempt: Attempt, token: Seq<char>)
    requires
        attempt.call.token == Ok::<_, InsightArenaError>(token),
        ledger.balance(token, attempt.request.predictor) < attempt.request.stake_amount,
    ensures
        !(ledger.outcome(attempt) is Accepted),
        ledger.after_attempt(attempt) == ledger,
{
    law_nothing_changes_unless_authorised_and_moved(ledger, attempt);
}

/// Where no balance is negative, none is after an attempt.
pub proof fn law_no_balance_turns_negative(ledger: Ledger, attempt: Attempt)
    requires
        forall|token: Seq<char>, holder: Seq<char>| #[trigger] ledger.balance(token, holder) >= 0,
    ensures
        forall|token: Seq<char>, holder: Seq<char>| #[trigger]
            ledger.after_attempt(attempt).balance(token, holder) >= 0,
{
    if ledger.outcome(attempt) is Accepted {
        law_accepted_submission(ledger, attempt);
        let after = ledger.after_attempt(attempt);
        assert forall|token: Seq<char>, holder: Seq<char>| #[trigger]
            after.balance(token, holder) >= 0 by {
            law_transfer_conserves(ledger, attempt.stake());
            assert(after.balance(token, holder) == ledger.transferred(attempt.stake()).balance(
                token,
                holder,
            ));
            assert(ledger.balance(token, holder) >= 0);
        }
    }
}

/// A submission that is refused or broken off changes nothing on the ledger.
pub proof fn law_failed_submission_changes_nothing(ledger: Ledger, attempt: Attempt)
    requires
        !(ledger.outcome(attempt) is Accepted),
    ensures
        ledger.after_attempt(attempt) == ledger,
{
}

/// A request that the platform or a guard turns down asks for nothing but the predictor's
/// authorisation, and so needs no undoing: no token moves and no entry is written.
pub proof fn law_refused_submission_asks_for_nothing(ledger: Ledger, attempt: Attempt)
    requires
        attempt.call.admission is Err || attempt.request.refusal(
            ledger.snapshot(attempt.request.market_id, attempt.request.predictor),
            attempt.call.now,
        ) is Some,
    ensures
        ledger.submission_result(attempt.call, attempt.request) is Err,
        ({
            let effects = ledger.submission_effects(attempt.call, attempt.request);
            &&& attempt.call.admission is Err ==> effects == Seq::<EffectView>::empty()
            &&& attempt.call.admission is Ok ==> effects == seq![
                EffectView::RequireAuth(attempt.request.predictor),
            ]
            &&& ledger.after_effects(attempt.host, effects) == (if attempt.call.admission is Err
                || attempt.is_authorised() {
                Some(ledger)
            } else {
                None
            })
        }),
{
    let auth = EffectView::RequireAuth(attempt.request.predictor);
    assert(seq![auth] + Seq::<EffectView>::empty() =~= seq![auth]);
    lemma_after_one_effect(ledger, attempt.host, auth);
}

/// Whatever a submission asks for, it asks for the predictor's authorisation first, and for
/// no other.
pub proof fn law_authorisation_comes_first(call: InvocationView, stored: SnapshotView, request: Request)
    ensures
        ({
            let effects = request.effects(call, stored);
            &&& effects.len() > 0 ==> effects[0] == EffectView::RequireAuth(request.predictor)
            &&& forall|i: int| 0 < i < effects.len() ==> !(#[trigger] effects[i] is RequireAuth)
        }),
{
}

/// Extending a lifetime twice in one ledger is extending it once. It is never cut short, and
/// then lasts for `threshold` more ledgers, or as long as the host allows.
pub proof fn law_extending_twice_is_extending_once(
    host: Host,
    live_until: u32,
    threshold: u32,
    extend_to: u32,
)
    requires
        host.can_extend(live_until, threshold, extend_to),
    ensures
        ({
            let once = host.extended(live_until, threshold, extend_to);
            &&& host.can_extend(once, threshold, extend_to)
            &&& host.extended(once, threshold, extend_to) == once
            &&& live_until <= once
            &&& host.sequence + threshold <= once || host.max_live_until <= once
        }),
{
}

/// Bumping an entry twice in one ledger is bumping it once, whatever the invocation asked for
/// before: every lifetime and every stored value is as the first bump left it, and where the
/// first bump breaks the invocation off, the second changes nothing about that.
pub proof fn law_bumping_twice_is_bumping_once(
    ledger: Ledger,
    host: Host,
    call: InvocationView,
    key: DataKeyView,
)
    ensures
        ({
            let once = call.asking(seq![call.bump(key)]);
            let twice = once.asking(seq![once.bump(key)]);
            ledger.after_effects(host, twice.effects) == ledger.after_effects(host, once.effects)
        }),
{
    let bump = call.bump(key);
    let once = call.asking(seq![bump]);
    lemma_after_effects_add(ledger, host, once.effects, seq![bump]);
    lemma_after_effects_add(ledger, host, call.effects, seq![bump]);
    if let Some(before) = ledger.after_effects(host, call.effects) {
        lemma_after_one_effect(before, host, bump);
        if let Some(after) = before.after_effect(host, bump) {
            lemma_after_one_effect(after, host, bump);
            assert(after.after_effect(host, bump)->0 =~= after);
        }
    }
}

/// A bump touches one lifetime and nothing else: no stored value, no balance, no event.
pub proof fn law_bump_touches_one_lifetime(
    ledger: Ledger,
    host: Host,
    call: InvocationView,
    key: DataKeyView,
)
    ensures
        ledger.after_effect(host, call.bump(key)) matches Some(after) ==> {
            &&& after == Ledger { live_until: after.live_until, ..ledger }
            &&& after.live_until.dom() == ledger.live_until.dom()
            &&& forall|other: DataKeyView|
                other != key ==> #[trigger] lookup(after.live_until, other) == lookup(
                    ledger.live_until,
                    other,
                )
            &&& after.live_until[key] == host.extended(
                ledger.live_until[key],
                call.ttl.threshold,
                call.ttl.bump,
            )
        },
{
}

/// Where every entry has a lifetime and nothing else has one, that is so after an attempt.
pub proof fn law_lifetimes_stay_matched(ledger: Ledger, attempt: Attempt)
    requires
        ledger.lifetimes_match(),
    ensures
        ledger.after_attempt(attempt).lifetimes_match(),
{
    if ledger.outcome(attempt) is Accepted {
        law_accepted_submission(ledger, attempt);
        let after = ledger.after_attempt(attempt);
        assert forall|key: DataKeyView| #[trigger]
            after.live_until.dom().contains(key) <==> after.record_at(key) is Some by {
            assert(ledger.live_until.dom().contains(key) <==> ledger.record_at(key) is Some);
        }
    }
}

/// Entries that are alive are alive after an attempt.
pub proof fn law_entries_stay_alive(ledger: Ledger, attempt: Attempt)
    requires
        attempt.host.valid(),
        ledger.alive_at(attempt.host.sequence),
    ensures
        ledger.after_attempt(attempt).alive_at(attempt.host.sequence),
{
    if ledger.outcome(attempt) is Accepted {
        law_accepted_submission(ledger, attempt);
    }
}

/// What is written under a key of its kind is what is read there, and no other key reads
/// differently for it.
pub proof fn law_read_gives_back_what_was_written(
    ledger: Ledger,
    host: Host,
    key: DataKeyView,
    record: RecordView,
    other: DataKeyView,
)
    requires
        belongs_under(key, record),
    ensures
        ledger.stored(host, key, record).record_at(other) == (if other == key {
            Some(record)
        } else {
            ledger.record_at(other)
        }),
{
}

/// The key under which a record belongs: its kind, and the ids that it carries itself.
pub open spec fn belongs_under(key: DataKeyView, record: RecordView) -> bool {
    match (key, record) {
        (DataKeyView::Market(_), RecordView::Market(_)) => true,
        (DataKeyView::Prediction(market_id, predictor), RecordView::Prediction(prediction)) => {
            &&& prediction.market_id == market_id
            &&& prediction.predictor == predictor
        },
        (DataKeyView::PredictorList(_), RecordView::PredictorList(_)) => true,
        (DataKeyView::User(_), RecordView::User(_)) => true,
        _ => false,
    }
}

/// A submission writes every record under the key where it belongs, and keeps each entry
/// alive right after it has written it.
pub proof fn law_records_stand_under_their_keys(
    call: InvocationView,
    stored: SnapshotView,
    request: Request,
)
    ensures
        ({
            let effects = request.effects(call, stored);
            forall|i: int|
                0 <= i < effects.len() ==> (#[trigger] effects[i] matches EffectView::Store(
                    key,
                    record,
                ) ==> {
                    &&& belongs_under(key, record)
                    &&& i + 1 < effects.len()
                    &&& effects[i + 1] == call.bump(key)
                })
        }),
{
}

/// Of a market, and of a profile that was there before, a submission writes new totals and
/// nothing else.
pub proof fn law_only_totals_are_written(call: InvocationView, stored: SnapshotView, request: Request)
    ensures
        ({
            let effects = request.effects(call, stored);
            forall|i: int|
                0 <= i < effects.len() ==> match #[trigger] effects[i] {
                    EffectView::Store(_, RecordView::Market(written)) => stored.market matches Some(
                        market,
                    ) && written == (MarketView {
                        total_pool: written.total_pool,
                        participant_count: written.participant_count,
                        ..market
                    }),
                    EffectView::Store(_, RecordView::User(written)) => stored.profile matches Some(
                        profile,
                    ) ==> written == (UserProfileView {
                        total_predictions: written.total_predictions,
                        total_staked: written.total_staked,
                        ..profile
                    }),
                    _ => true,
                }
        }),
{
}

/// A submission leaves alone every other market, prediction, list, profile, lifetime and
/// balance, and all earlier events.
pub proof fn law_submission_touches_only_its_own(ledger: Ledger, attempt: Attempt)
    ensures
        ({
            let call = attempt.call;
            let request = attempt.request;
            let after = ledger.after_attempt(attempt);
            &&& forall|id: u64|
                id != request.market_id ==> #[trigger] lookup(after.markets, id) == lookup(
                    ledger.markets,
                    id,
                )
            &&& forall|id: u64|
                id != request.market_id ==> #[trigger] after.predictors_of(id)
                    == ledger.predictors_of(id)
            &&& forall|key: (u64, Seq<char>)|
                key != (request.market_id, request.predictor) ==> #[trigger] lookup(
                    after.predictions,
                    key,
                ) == lookup(ledger.predictions, key)
            &&& forall|address: Seq<char>|
                address != request.predictor ==> #[trigger] lookup(after.profiles, address)
                    == lookup(ledger.profiles, address)
            &&& forall|key: DataKeyView|
                key != DataKeyView::Market(request.market_id) && key != DataKeyView::Prediction(
                    request.market_id,
                    request.predictor,
                ) && key != DataKeyView::PredictorList(request.market_id) && key
                    != DataKeyView::User(request.predictor) ==> #[trigger] lookup(
                    after.live_until,
                    key,
                ) == lookup(ledger.live_until, key)
            &&& forall|token: Seq<char>, holder: Seq<char>|
                call.token != Ok::<_, InsightArenaError>(token) || (holder != request.predictor
                    && holder != call.contract) ==> #[trigger] after.balance(token, holder)
                    == ledger.balance(token, holder)
            &&& ledger.events.is_prefix_of(after.events)
        }),
{
    if ledger.outcome(attempt) is Accepted {
        law_accepted_submission(ledger, attempt);
    }
}

/// A prediction that stands is never changed and never removed by a submission.
pub proof fn law_predictions_stand(ledger: Ledger, attempt: Attempt, key: (u64, Seq<char>))
    requires
        ledger.predictions.dom().contains(key),
    ensures
        ledger.after_attempt(attempt).predictions.dom().contains(key),
        ledger.after_attempt(attempt).predictions[key] == ledger.predictions[key],
{
    if ledger.outcome(attempt) is Accepted {
        law_accepted_submission(ledger, attempt);
    }
}

/// Once a submission was accepted, no later one by the same predictor on the same market is,
/// whatever its time, outcome or stake; and one that is authorised and with which nothing else
/// is wrong is told `AlreadyPredicted`.
pub proof fn law_no_second_prediction(ledger: Ledger, attempt: Attempt, later: Attempt)
    requires
        ledger.outcome(attempt) is Accepted,
        later.request.market_id == attempt.request.market_id,
        later.request.predictor == attempt.request.predictor,
    ensures
        ({
            let after = ledger.after_attempt(attempt);
            let market = ledger.markets[attempt.request.market_id];
            &&& !(after.outcome(later) is Accepted)
            &&& after.after_attempt(later) == after
            &&& later.is_authorised() && later.call.admission is Ok && later.call.now
                < market.end_time && market.outcome_options.contains(later.request.chosen_outcome)
                && market.min_stake <= later.request.stake_amount <= market.max_stake
                ==> after.outcome(later) == Outcome::Refused(InsightArenaError::AlreadyPredicted)
        }),
{
    law_accepted_submission(ledger, attempt);
    let after = ledger.after_attempt(attempt);
    assert(after.snapshot(later.request.market_id, later.request.predictor).already_predicted);
    law_refused_submission_asks_for_nothing(after, later);
}

/// A transfer takes from the sender what it gives to the receiver, and leaves every other
/// balance alone; one from a holder to itself changes nothing.
pub proof fn law_transfer_conserves(ledger: Ledger, transfer: TransferView)
    ensures
        forall|token: Seq<char>, holder: Seq<char>| #[trigger]
            ledger.transferred(transfer).balance(token, holder) == ledger.balance(token, holder) + (
            if token == transfer.token && holder == transfer.to {
                transfer.amount as int
            } else {
                0
            }) - (if token == transfer.token && holder == transfer.from {
                transfer.amount as int
            } else {
                0
            }),
{
}

/// An accepted stake leaves the predictor and enters the contract's custody in full, and the
/// market's pool grows by exactly that stake, together with its number of participants.
pub proof fn law_stake_enters_custody(ledger: Ledger, attempt: Attempt)
    requires
        ledger.outcome(attempt) is Accepted,
    ensures
        ({
            let call = attempt.call;
            let request = attempt.request;
            let after = ledger.after_attempt(attempt);
            let before_market = ledger.markets[request.market_id];
            let after_market = after.markets[request.market_id];
            &&& forall|holder: Seq<char>| #[trigger]
                after.balance(call.token->Ok_0, holder) == ledger.balance(
                    call.token->Ok_0,
                    holder,
                ) + (if holder == call.contract {
                    request.stake_amount as int
                } else {
                    0
                }) - (if holder == request.predictor {
                    request.stake_amount as int
                } else {
                    0
                })
            &&& after_market.total_pool == before_market.total_pool + request.stake_amount
            &&& after_market.participant_count == before_market.participant_count + 1
        }),
{
    law_accepted_submission(ledger, attempt);
}

/// A lock, a refund or a payout, on its own: without a configuration it is refused, with the
/// error that says why; where the token does not move the amount it is broken off; otherwise
/// the amount moves, and nothing but the two balances changes.
pub proof fn law_movement_moves_or_changes_nothing(
    ledger: Ledger,
    host: Host,
    call: InvocationView,
    from: Seq<char>,
    to: Seq<char>,
    amount: i128,
)
    ensures
        ({
            let result = movement_result(call);
            let effects = movement(call, from, to, amount);
            let outcome = ledger.invocation_outcome(host, result, effects);
            let after = ledger.after_invocation(host, result, effects);
            match call.token {
                Err(error) => outcome == Outcome::Refused(error) && after == ledger,
                Ok(token) => {
                    let transfer = TransferView { token, from, to, amount };
                    if ledger.moves(host, transfer) {
                        outcome == Outcome::Accepted && after == ledger.transferred(transfer)
                    } else {
                        outcome == Outcome::Aborted && after == ledger
                    }
                },
            }
        }),
{
    if let Ok(token) = call.token {
        let transfer = TransferView { token, from, to, amount };
        lemma_after_one_effect(ledger, host, EffectView::Transfer(transfer));
    }
}

/// Where a lock and the refund of the same amount are both carried out in one invocation, every
/// balance and all else is as before. The refund of what was locked fails only if the token has
/// something else against it, or the contract was in debt.
pub proof fn law_refund_undoes_lock(
    ledger: Ledger,
    host: Host,
    call: InvocationView,
    predictor: Seq<char>,
    amount: i128,
)
    ensures
        ({
            let lock = movement(call, predictor, call.contract, amount);
            let refund = movement(call, call.contract, predictor, amount);
            let end = ledger.after_effects(host, lock + refund);
            &&& end matches Some(after) ==> {
                &&& after == Ledger { balances: after.balances, ..ledger }
                &&& forall|token: Seq<char>, holder: Seq<char>| #[trigger]
                    after.balance(token, holder) == ledger.balance(token, holder)
            }
            &&& call.token matches Ok(token) ==> {
                let moved = TransferView { token, from: predictor, to: call.contract, amount };
                let returned = TransferView { token, from: call.contract, to: predictor, amount };
                ledger.moves(host, moved) && host.permitted.contains(returned) && ledger.balance(
                    token,
                    call.contract,
                ) >= 0 ==> end is Some
            }
        }),
{
    let lock = movement(call, predictor, call.contract, amount);
    let refund = movement(call, call.contract, predictor, amount);
    lemma_after_effects_add(ledger, host, lock, refund);
    if let Ok(token) = call.token {
        let moved = TransferView { token, from: predictor, to: call.contract, amount };
        let returned = TransferView { token, from: call.contract, to: predictor, amount };
        let locked = ledger.transferred(moved);
        lemma_after_one_effect(ledger, host, EffectView::Transfer(moved));
        lemma_after_one_effect(locked, host, EffectView::Transfer(returned));
        law_transfer_conserves(ledger, moved);
        law_transfer_conserves(locked, returned);
        assert(locked.balance(token, call.contract) >= ledger.balance(token, call.contract) + amount
            || predictor == call.contract);
    }
}

/// A refund that comes in a later invocation, whatever has happened in between, gives back what
/// the lock took: each balance changes by as much, the other way. Where nothing has happened in
/// between, every balance, and all else, is as it was before the lock.
pub proof fn law_later_refund_undoes_lock(
    ledger: Ledger,
    lock_host: Host,
    lock_call: InvocationView,
    later: Ledger,
    refund_host: Host,
    refund_call: InvocationView,
    predictor: Seq<char>,
    amount: i128,
)
    requires
        lock_call.token == refund_call.token,
        lock_call.contract == refund_call.contract,
        ({
            let contract = lock_call.contract;
            &&& ledger.invocation_outcome(
                lock_host,
                movement_result(lock_call),
                movement(lock_call, predictor, contract, amount),
            ) is Accepted
            &&& later.invocation_outcome(
                refund_host,
                movement_result(refund_call),
                movement(refund_call, contract, predictor, amount),
            ) is Accepted
        }),
    ensures
        ({
            let contract = lock_call.contract;
            let locked = ledger.after_invocation(
                lock_host,
                movement_result(lock_call),
                movement(lock_call, predictor, contract, amount),
            );
            let refunded = later.after_invocation(
                refund_host,
                movement_result(refund_call),
                movement(refund_call, contract, predictor, amount),
            );
            &&& forall|token: Seq<char>, holder: Seq<char>| #[trigger]
                refunded.balance(token, holder) - later.balance(token, holder) == ledger.balance(
                    token,
                    holder,
                ) - locked.balance(token, holder)
            &&& later == locked ==> {
                &&& refunded == Ledger { balances: refunded.balances, ..ledger }
                &&& forall|token: Seq<char>, holder: Seq<char>| #[trigger]
                    refunded.balance(token, holder) == ledger.balance(token, holder)
            }
        }),
{
    let contract = lock_call.contract;
    law_movement_moves_or_changes_nothing(
        ledger,
        lock_host,
        lock_call,
        predictor,
        contract,
        amount,
    );
    law_movement_moves_or_changes_nothing(
        later,
        refund_host,
        refund_call,
        contract,
        predictor,
        amount,
    );
    if let Ok(token) = lock_call.token {
        law_transfer_conserves(
            ledger,
            TransferView { token, from: predictor, to: contract, amount },
        );
        law_transfer_conserves(
            later,
            TransferView { token, from: contract, to: predictor, amount },
        );
    }
}

/// Taking out one prediction, whichever it is, takes its part out of the sum and the count.
proof fn lemma_selection_remove(
    selection: Selection,
    predictions: Map<(u64, Seq<char>), PredictionView>,
    key: (u64, Seq<char>),
)
    requires
        predictions.dom().finite(),
        predictions.dom().contains(key),
    ensures
        selection.stake(predictions) == selection.stake(predictions.remove(key)) + (
        if selection.covers(key) {
            predictions[key].stake_amount as int
        } else {
            0
        }),
        selection.count(predictions) == selection.count(predictions.remove(key)) + (
        if selection.covers(key) {
            1int
        } else {
            0
        }),
    decreases predictions.dom().len(),
{
    let first = predictions.dom().choose();
    if first != key {
        let rest = predictions.remove(first);
        let others = predictions.remove(key);
        lemma_selection_remove(selection, rest, key);
        lemma_selection_remove(selection, others, first);
        assert(rest.remove(key) =~= others.remove(first));
    }
}

/// A new prediction adds its part to the sum and the count.
pub(crate) proof fn lemma_selection_insert(
    selection: Selection,
    predictions: Map<(u64, Seq<char>), PredictionView>,
    key: (u64, Seq<char>),
    prediction: PredictionView,
)
    requires
        predictions.dom().finite(),
        !predictions.dom().contains(key),
    ensures
        selection.stake(predictions.insert(key, prediction)) == selection.stake(predictions) + (
        if selection.covers(key) {
            prediction.stake_amount as int
        } else {
            0
        }),
        selection.count(predictions.insert(key, prediction)) == selection.count(predictions) + (
        if selection.covers(key) {
            1int
        } else {
            0
        }),
{
    let more = predictions.insert(key, prediction);
    lemma_selection_remove(selection, more, key);
    assert(more.remove(key) =~= predictions);
}

/// Where nothing is chosen, the sum and the count are zero.
proof fn lemma_selection_empty(
    selection: Selection,
    predictions: Map<(u64, Seq<char>), PredictionView>,
)
    requires
        forall|key: (u64, Seq<char>)| #[trigger]
            predictions.dom().contains(key) ==> !selection.covers(key),
    ensures
        selection.stake(predictions) == 0,
        selection.count(predictions) == 0,
    decreases predictions.dom().len(),
{
    if predictions.dom().finite() && predictions.dom().len() > 0 {
        let first = predictions.dom().choose();
        assert(predictions.dom().contains(first));
        lemma_selection_empty(selection, predictions.remove(first));
    }
}

/// Where the list of a market names each of its predictors once and nobody else, and is as long
/// as the market's count says, that is so after a submission, accepted or not, whatever else is
/// on the ledger.
pub proof fn law_market_list_stays_matched(ledger: Ledger, attempt: Attempt, market_id: u64)
    requires
        ledger.list_matches(market_id),
    ensures
        ledger.after_attempt(attempt).list_matches(market_id),
{
    if ledger.outcome(attempt) is Accepted {
        law_accepted_submission(ledger, attempt);
        let request = attempt.request;
        let after = ledger.after_attempt(attempt);
        let before_list = ledger.predictors_of(market_id);
        let after_list = after.predictors_of(market_id);
        assert forall|predictor: Seq<char>|
            after_list.contains(predictor) <==> #[trigger] after.predictions.dom().contains(
                (market_id, predictor),
            ) by {
            assert(before_list.contains(predictor) <==> ledger.predictions.dom().contains(
                (market_id, predictor),
            ));
            if market_id == request.market_id {
                assert(after_list =~= before_list.push(request.predictor));
                if before_list.contains(predictor) {
                    let i = before_list.index_of(predictor);
                    assert(after_list[i] == predictor);
                }
                if predictor == request.predictor {
                    assert(after_list[before_list.len() as int] == predictor);
                }
            }
        }
        if market_id == request.market_id {
            assert(!before_list.contains(request.predictor)) by {
                assert(!ledger.predictions.dom().contains((market_id, request.predictor)));
            }
        }
    }
}

/// Where the pool of a market is the sum of the stakes on it and its count is the number of
/// predictions on it, that is so after a submission, accepted or not, whatever else is on the
/// ledger.
pub proof fn law_market_pool_stays_matched(ledger: Ledger, attempt: Attempt, market_id: u64)
    requires
        ledger.predictions.dom().finite(),
        ledger.pool_matches(market_id),
    ensures
        ledger.after_attempt(attempt).pool_matches(market_id),
{
    if ledger.outcome(attempt) is Accepted {
        law_accepted_submission(ledger, attempt);
        lemma_selection_insert(
            Selection::OnMarket(market_id),
            ledger.predictions,
            (attempt.request.market_id, attempt.request.predictor),
            attempt.request.prediction(attempt.call.now),
        );
    }
}

/// Where the pool, the count and the list of a market agree with the predictions on it, they
/// still do after a submission, accepted or not. Neither the profiles nor the other markets have
/// to agree with anything for that.
pub proof fn law_market_stays_balanced(ledger: Ledger, attempt: Attempt, market_id: u64)
    requires
        ledger.predictions.dom().finite(),
        ledger.market_balances(market_id),
    ensures
        ledger.after_attempt(attempt).market_balances(market_id),
{
    law_market_list_stays_matched(ledger, attempt, market_id);
    law_market_pool_stays_matched(ledger, attempt, market_id);
}

/// Where the totals of a user's profile agree with the user's predictions, or a user without a
/// profile has made none, that is so after a submission, accepted or not. Neither the markets
/// nor the other profiles have to agree with anything for that.
pub proof fn law_profile_stays_balanced(ledger: Ledger, attempt: Attempt, address: Seq<char>)
    requires
        ledger.predictions.dom().finite(),
        ledger.user_balances(address),
    ensures
        ledger.after_attempt(attempt).user_balances(address),
{
    if ledger.outcome(attempt) is Accepted {
        law_accepted_submission(ledger, attempt);
        lemma_selection_insert(
            Selection::By(address),
            ledger.predictions,
            (attempt.request.market_id, attempt.request.predictor),
            attempt.request.prediction(attempt.call.now),
        );
        if !ledger.profiles.dom().contains(address) {
            lemma_selection_empty(Selection::By(address), ledger.predictions);
        }
    }
}

/// Where the books balance, they still do after a submission, accepted or not: each pool is
/// the sum of the stakes on its market, each count is the number of predictions on it, each
/// list names its predictors once, and each profile agrees with what its user staked.
pub proof fn law_books_stay_balanced(ledger: Ledger, attempt: Attempt)
    requires
        ledger.books_balance(),
    ensures
        ledger.after_attempt(attempt).books_balance(),
{
    if ledger.outcome(attempt) is Accepted {
        law_accepted_submission(ledger, attempt);
        let after = ledger.after_attempt(attempt);
        assert forall|id: u64| #[trigger]
            after.markets.dom().contains(id) implies after.market_balances(id) by {
            assert(ledger.markets.dom().contains(id));
            law_market_stays_balanced(ledger, attempt, id);
        }
        assert forall|address: Seq<char>| #[trigger]
            after.profiles.dom().contains(address) implies after.profile_balances(address) by {
            law_profile_stays_balanced(ledger, attempt, address);
        }
    }
}

/// The books of a ledger balance on which markets have opened and nobody has predicted yet.
pub proof fn law_opening_books_balance(ledger: Ledger)
    requires
        ledger.predictions == Map::<(u64, Seq<char>), PredictionView>::empty(),
        ledger.predictors == Map::<u64, Seq<Seq<char>>>::empty(),
        ledger.profiles == Map::<Seq<char>, UserProfileView>::empty(),
        forall|id: u64| #[trigger]
            ledger.markets.dom().contains(id) ==> ledger.markets[id].total_pool == 0
                && ledger.markets[id].participant_count == 0,
    ensures
        ledger.books_balance(),
{
    assert forall|id: u64| #[trigger]
        ledger.markets.dom().contains(id) implies ledger.market_balances(id) by {
        lemma_selection_empty(Selection::OnMarket(id), ledger.predictions);
    }
}

/// The ledger after a history of submissions, one after the other.
pub open spec fn after_history(ledger: Ledger, history: Seq<Attempt>) -> Ledger
    decreases history.len(),
{
    if history.len() == 0 {
        ledger
    } else {
        after_history(ledger, history.drop_last()).after_attempt(history.last())
    }
}

/// No history of submissions unbalances a market.
pub proof fn law_market_balances_throughout(
    ledger: Ledger,
    history: Seq<Attempt>,
    market_id: u64,
)
    requires
        ledger.predictions.dom().finite(),
        ledger.market_balances(market_id),
    ensures
        after_history(ledger, history).market_balances(market_id),
    decreases history.len(),
{
    if history.len() > 0 {
        let earlier = after_history(ledger, history.drop_last());
        law_market_balances_throughout(ledger, history.drop_last(), market_id);
        lemma_predictions_stay_finite(ledger, history.drop_last());
        law_market_stays_balanced(earlier, history.last(), market_id);
    }
}

/// A history of submissions makes finitely many predictions.
proof fn lemma_predictions_stay_finite(ledger: Ledger, history: Seq<Attempt>)
    requires
        ledger.predictions.dom().finite(),
    ensures
        after_history(ledger, history).predictions.dom().finite(),
    decreases history.len(),
{
    if history.len() > 0 {
        let earlier = after_history(ledger, history.drop_last());
        lemma_predictions_stay_finite(ledger, history.drop_last());
        if earlier.outcome(history.last()) is Accepted {
            law_accepted_submission(earlier, history.last());
        }
    }
}

/// No history of submissions unbalances the books.
pub proof fn law_books_balance_throughout(ledger: Ledger, history: Seq<Attempt>)
    requires
        ledger.books_balance(),
    ensures
        after_history(ledger, history).books_balance(),
    decreases history.len(),
{
    if history.len() > 0 {
        law_books_balance_throughout(ledger, history.drop_last());
        law_books_stay_balanced(after_history(ledger, history.drop_last()), history.last());
    }
}

/// A submission moves into custody exactly what it adds to the stakes: what the contract
/// holds beyond them stays what it was. A contract that stakes with itself is the exception,
/// since such a stake moves nothing.
pub proof fn law_custody_covers_the_stakes(ledger: Ledger, attempt: Attempt)
    requires
        ledger.predictions.dom().finite(),
        attempt.request.predictor != attempt.call.contract,
    ensures
        attempt.call.token matches Ok(token) ==> ledger.after_attempt(attempt).surplus(
            token,
            attempt.call.contract,
        ) == ledger.surplus(token, attempt.call.contract),
{
    if ledger.outcome(attempt) is Accepted {
        law_accepted_submission(ledger, attempt);
        lemma_selection_insert(
            Selection::All,
            ledger.predictions,
            (attempt.request.market_id, attempt.request.predictor),
            attempt.request.prediction(attempt.call.now),
        );
    }
}

/// The same over any history of submissions to one contract in one token.
pub proof fn law_custody_covers_the_stakes_throughout(
    ledger: Ledger,
    history: Seq<Attempt>,
    token: Seq<char>,
    contract: Seq<char>,
)
    requires
        ledger.predictions.dom().finite(),
        forall|i: int|
            0 <= i < history.len() ==> {
                &&& (#[trigger] history[i]).call.contract == contract
                &&& history[i].call.token == Ok::<_, InsightArenaError>(token)
                &&& history[i].request.predictor != contract
            },
    ensures
        after_history(ledger, history).surplus(token, contract) == ledger.surplus(token, contract),
    decreases history.len(),
{
    if history.len() > 0 {
        let earlier = history.drop_last();
        assert forall|i: int| 0 <= i < earlier.len() implies {
            &&& (#[trigger] earlier[i]).call.contract == contract
            &&& earlier[i].call.token == Ok::<_, InsightArenaError>(token)
            &&& earlier[i].request.predictor != contract
        } by {
            assert(earlier[i] == history[i]);
        }
        law_custody_covers_the_stakes_throughout(ledger, earlier, token, contract);
        lemma_predictions_stay_finite(ledger, earlier);
        assert(history.last() == history[history.len() - 1]);
        law_custody_covers_the_stakes(after_history(ledger, earlier), history.last());
    }
}

} // verus!
