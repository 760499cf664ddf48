//! The rules on plain values: what is asked for, in which order, and which error wins.

use insight_arena::errors::InsightArenaError;
use insight_arena::escrow::{lock_stake, refund, release_payout};
use insight_arena::invocation::{Effect, Invocation, TtlPolicy};
use insight_arena::prediction::{submission_keys, submit_prediction, Snapshot};
use insight_arena::storage_types::{
    Address, Config, DataKey, Market, Prediction, Record, Symbol, UserProfile,
};

fn address(name: &str) -> Address {
    Address { strkey: name.to_string() }
}

fn invocation() -> Invocation {
    Invocation {
        contract: address("CONTRACT"),
        now: 500,
        admission: Ok(()),
        config: Ok(Config { xlm_token: address("TOKEN") }),
        ttl: TtlPolicy { threshold: 7, bump: 30 },
        effects: Vec::new(),
    }
}

fn market() -> Market {
    Market {
        outcome_options: vec![Symbol::new("yes"), Symbol::new("no")],
        end_time: 1000,
        min_stake: 10,
        max_stake: 100,
        total_pool: 70,
        participant_count: 3,
    }
}

fn snapshot() -> Snapshot {
    Snapshot { market: Some(market()), already_predicted: false, predictors: None, profile: None }
}

/// Submits 20 on "yes" of market 4 for "ALICE".
fn submit(call: &mut Invocation, stored: Snapshot) -> Result<(), InsightArenaError> {
    submit_prediction(call, stored, address("ALICE"), 4, Symbol::new("yes"), 20)
}

fn kinds(call: &Invocation) -> Vec<&'static str> {
    call.effects
        .iter()
        .map(|effect| match effect {
            Effect::RequireAuth(_) => "auth",
            Effect::Transfer(_) => "transfer",
            Effect::Store(DataKey::Market(_), Record::Market(_)) => "market",
            Effect::Store(DataKey::Prediction(_, _), Record::Prediction(_)) => "prediction",
            Effect::Store(DataKey::PredictorList(_), Record::PredictorList(_)) => "list",
            Effect::Store(DataKey::User(_), Record::User(_)) => "user",
            Effect::Store(_, _) => "misplaced",
            Effect::ExtendTtl { key: DataKey::Market(_), .. } => "bump market",
            Effect::ExtendTtl { key: DataKey::Prediction(_, _), .. } => "bump prediction",
            Effect::ExtendTtl { key: DataKey::PredictorList(_), .. } => "bump list",
            Effect::ExtendTtl { key: DataKey::User(_), .. } => "bump user",
            Effect::Publish(_) => "event",
        })
        .collect()
}

#[test]
fn accepted_submission_asks_in_order() {
    let mut call = invocation();
    assert_eq!(submit(&mut call, snapshot()), Ok(()));
    assert_eq!(
        kinds(&call),
        vec![
            "auth",
            "transfer",
            "prediction",
            "bump prediction",
            "list",
            "bump list",
            "market",
            "bump market",
            "user",
            "bump user",
            "event",
        ]
    );
}

#[test]
fn accepted_submission_states_every_record() {
    let mut call = invocation();
    let mut stored = snapshot();
    stored.predictors = Some(vec![address("BOB"), address("CAROL")]);
    stored.profile = Some(UserProfile {
        address: address("ALICE"),
        total_predictions: 5,
        total_staked: 300,
        joined_at: 11,
    });
    assert_eq!(submit(&mut call, stored), Ok(()));
    let mut seen = 0;
    for effect in call.effects.iter() {
        match effect {
            Effect::RequireAuth(who) => assert_eq!(who.strkey, "ALICE"),
            Effect::Transfer(transfer) => {
                assert_eq!(transfer.token.strkey, "TOKEN");
                assert_eq!(transfer.from.strkey, "ALICE");
                assert_eq!(transfer.to.strkey, "CONTRACT");
                assert_eq!(transfer.amount, 20);
            }
            Effect::Store(DataKey::Prediction(id, who), Record::Prediction(prediction)) => {
                assert_eq!(*id, 4);
                assert_eq!(who.strkey, "ALICE");
                assert_eq!(prediction.market_id, 4);
                assert_eq!(prediction.predictor.strkey, "ALICE");
                assert_eq!(prediction.chosen_outcome.text, "yes");
                assert_eq!(prediction.stake_amount, 20);
                assert_eq!(prediction.submitted_at, 500);
                assert!(!prediction.payout_claimed);
                assert_eq!(prediction.payout_amount, 0);
            }
            Effect::Store(DataKey::PredictorList(id), Record::PredictorList(list)) => {
                assert_eq!(*id, 4);
                let names: Vec<&str> = list.iter().map(|who| who.strkey.as_str()).collect();
                assert_eq!(names, vec!["BOB", "CAROL", "ALICE"]);
            }
            Effect::Store(DataKey::Market(id), Record::Market(market)) => {
                assert_eq!(*id, 4);
                assert_eq!(market.total_pool, 90);
                assert_eq!(market.participant_count, 4);
                assert_eq!(market.end_time, 1000);
                assert_eq!(market.min_stake, 10);
                assert_eq!(market.max_stake, 100);
                assert_eq!(market.outcome_options.len(), 2);
            }
            Effect::Store(DataKey::User(who), Record::User(profile)) => {
                assert_eq!(who.strkey, "ALICE");
                assert_eq!(profile.address.strkey, "ALICE");
                assert_eq!(profile.total_predictions, 6);
                assert_eq!(profile.total_staked, 320);
                assert_eq!(profile.joined_at, 11);
            }
            Effect::ExtendTtl { threshold, extend_to, .. } => {
                assert_eq!(*threshold, 7);
                assert_eq!(*extend_to, 30);
            }
            Effect::Publish(event) => {
                assert_eq!(event.topics.0.text, "pred");
                assert_eq!(event.topics.1.text, "submitd");
                assert_eq!(event.market_id, 4);
                assert_eq!(event.predictor.strkey, "ALICE");
                assert_eq!(event.outcome.text, "yes");
                assert_eq!(event.amount, 20);
            }
            Effect::Store(_, _) => panic!("a record under a foreign key"),
        }
        seen += 1;
    }
    assert_eq!(seen, 11);
}

#[test]
fn first_prediction_creates_profile_and_list() {
    let mut call = invocation();
    assert_eq!(submit(&mut call, snapshot()), Ok(()));
    assert!(call.effects.iter().any(|effect| matches!(
        effect,
        Effect::Store(DataKey::User(_), Record::User(profile))
            if profile.total_predictions == 1
                && profile.total_staked == 20
                && profile.joined_at == 500
    )));
    assert!(call.effects.iter().any(|effect| matches!(
        effect,
        Effect::Store(_, Record::PredictorList(list)) if list.len() == 1
    )));
}

#[test]
fn earlier_effects_stay_in_front() {
    let mut call = invocation();
    assert_eq!(lock_stake(&mut call, &address("BOB"), 1), Ok(()));
    assert_eq!(submit(&mut call, snapshot()), Ok(()));
    assert_eq!(call.effects.len(), 12);
    assert_eq!(kinds(&call)[0], "transfer");
    assert_eq!(kinds(&call)[1], "auth");
}

#[test]
fn closed_platform_asks_for_nothing() {
    let mut call = invocation();
    call.admission = Err(InsightArenaError::Paused);
    assert_eq!(submit(&mut call, snapshot()), Err(InsightArenaError::Paused));
    assert!(call.effects.is_empty());
}

#[test]
fn guards_are_tried_in_order() {
    // Everything is wrong at first; each step mends what was reported.
    let mut stored = snapshot();
    stored.already_predicted = true;
    let mut wrong = market();
    wrong.end_time = 500;
    wrong.outcome_options = vec![Symbol::new("no")];
    wrong.min_stake = 21;
    wrong.max_stake = 19;

    let mut attempt = |market: Option<Market>, already_predicted: bool| {
        let mut call = invocation();
        let stored =
            Snapshot { market, already_predicted, predictors: None, profile: None };
        let result = submit(&mut call, stored);
        assert_eq!(kinds(&call), vec!["auth"]);
        result
    };
    let copy = |market: &Market| Market {
        outcome_options: market.outcome_options.clone(),
        end_time: market.end_time,
        min_stake: market.min_stake,
        max_stake: market.max_stake,
        total_pool: market.total_pool,
        participant_count: market.participant_count,
    };
    assert_eq!(attempt(None, true), Err(InsightArenaError::MarketNotFound));
    assert_eq!(attempt(Some(copy(&wrong)), true), Err(InsightArenaError::MarketExpired));
    wrong.end_time = 501;
    assert_eq!(attempt(Some(copy(&wrong)), true), Err(InsightArenaError::InvalidOutcome));
    wrong.outcome_options.push(Symbol::new("yes"));
    assert_eq!(attempt(Some(copy(&wrong)), true), Err(InsightArenaError::StakeTooLow));
    wrong.min_stake = 20;
    assert_eq!(attempt(Some(copy(&wrong)), true), Err(InsightArenaError::StakeTooHigh));
    wrong.max_stake = 20;
    assert_eq!(attempt(Some(copy(&wrong)), true), Err(InsightArenaError::AlreadyPredicted));
    let mut call = invocation();
    stored.market = Some(wrong);
    stored.already_predicted = false;
    assert_eq!(submit(&mut call, stored), Ok(()));
}

#[test]
fn missing_configuration_stops_before_the_transfer() {
    let mut call = invocation();
    call.config = Err(InsightArenaError::NotInitialized);
    assert_eq!(submit(&mut call, snapshot()), Err(InsightArenaError::NotInitialized));
    assert_eq!(kinds(&call), vec!["auth"]);
}

#[test]
fn pool_overflow_stops_before_the_market() {
    for (pool, count) in [(i128::MAX - 19, 3), (70, u32::MAX)] {
        let mut call = invocation();
        let mut stored = snapshot();
        let mut full = market();
        full.total_pool = pool;
        full.participant_count = count;
        stored.market = Some(full);
        assert_eq!(submit(&mut call, stored), Err(InsightArenaError::Overflow));
        assert_eq!(
            kinds(&call),
            vec!["auth", "transfer", "prediction", "bump prediction", "list", "bump list"]
        );
    }
}

#[test]
fn profile_overflow_stops_before_the_profile() {
    for (predictions, staked) in [(u32::MAX, 0), (0, i128::MAX - 19)] {
        let mut call = invocation();
        let mut stored = snapshot();
        let mut profile = UserProfile::new(address("ALICE"), 1);
        profile.total_predictions = predictions;
        profile.total_staked = staked;
        stored.profile = Some(profile);
        assert_eq!(submit(&mut call, stored), Err(InsightArenaError::Overflow));
        assert_eq!(call.effects.len(), 8);
        assert_eq!(kinds(&call)[7], "bump market");
    }
}

#[test]
fn totals_may_reach_their_limits() {
    let mut call = invocation();
    let mut stored = snapshot();
    let mut full = market();
    full.total_pool = i128::MAX - 20;
    full.participant_count = u32::MAX - 1;
    stored.market = Some(full);
    let mut profile = UserProfile::new(address("ALICE"), 1);
    profile.total_predictions = u32::MAX - 1;
    profile.total_staked = i128::MAX - 20;
    stored.profile = Some(profile);
    assert_eq!(submit(&mut call, stored), Ok(()));
}

#[test]
fn last_second_before_the_end_is_in_time() {
    let mut call = invocation();
    call.now = 999;
    assert_eq!(submit(&mut call, snapshot()), Ok(()));
    let mut call = invocation();
    call.now = 1000;
    assert_eq!(submit(&mut call, snapshot()), Err(InsightArenaError::MarketExpired));
}

fn only_transfer(call: &Invocation) -> (String, String, String, i128) {
    assert_eq!(call.effects.len(), 1);
    match &call.effects[0] {
        Effect::Transfer(transfer) => (
            transfer.token.strkey.clone(),
            transfer.from.strkey.clone(),
            transfer.to.strkey.clone(),
            transfer.amount,
        ),
        _ => panic!("not a transfer"),
    }
}

fn moved(from: &str, to: &str, amount: i128) -> (String, String, String, i128) {
    ("TOKEN".to_string(), from.to_string(), to.to_string(), amount)
}

#[test]
fn stakes_move_into_and_out_of_custody() {
    let mut call = invocation();
    assert_eq!(lock_stake(&mut call, &address("ALICE"), 25), Ok(()));
    assert_eq!(only_transfer(&call), moved("ALICE", "CONTRACT", 25));

    let mut call = invocation();
    assert_eq!(refund(&mut call, &address("ALICE"), 25), Ok(()));
    assert_eq!(only_transfer(&call), moved("CONTRACT", "ALICE", 25));

    let mut call = invocation();
    assert_eq!(release_payout(&mut call, &address("BOB"), 60), Ok(()));
    assert_eq!(only_transfer(&call), moved("CONTRACT", "BOB", 60));
}

#[test]
fn nothing_moves_without_configuration() {
    let error = InsightArenaError::NotInitialized;
    let mut call = invocation();
    call.config = Err(error);
    assert_eq!(lock_stake(&mut call, &address("ALICE"), 25), Err(error));
    assert_eq!(refund(&mut call, &address("ALICE"), 25), Err(error));
    assert_eq!(release_payout(&mut call, &address("ALICE"), 25), Err(error));
    assert!(call.effects.is_empty());
}

#[test]
fn submission_reads_four_keys() {
    let keys = submission_keys(4, &address("ALICE"));
    assert!(matches!(keys.market, DataKey::Market(4)));
    assert!(matches!(keys.prediction, DataKey::Prediction(4, who) if who.strkey == "ALICE"));
    assert!(matches!(keys.predictors, DataKey::PredictorList(4)));
    assert!(matches!(keys.profile, DataKey::User(who) if who.strkey == "ALICE"));
}

#[test]
fn fresh_records_start_from_nothing() {
    let prediction = Prediction::new(4, address("ALICE"), Symbol::new("no"), 20, 9);
    assert_eq!(prediction.submitted_at, 9);
    assert!(!prediction.payout_claimed);
    assert_eq!(prediction.payout_amount, 0);
    let profile = UserProfile::new(address("ALICE"), 9);
    assert_eq!((profile.total_predictions, profile.total_staked), (0, 0));
    assert_eq!(profile.joined_at, 9);
    assert!(Symbol::new("no").same_as(&prediction.chosen_outcome));
    assert!(!Symbol::new("No").same_as(&prediction.chosen_outcome));
}
