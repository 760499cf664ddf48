//! Submissions through a contract that runs on the Soroban test host: the library decides, and
//! the contract below reads the ledger for it and carries out what it asks for.

use insight_arena::errors::InsightArenaError;
use insight_arena::escrow::{refund, release_payout};
use insight_arena::invocation::{Effect, Invocation, TtlPolicy};
use insight_arena::prediction::{submission_keys, submit_prediction, Snapshot};
use insight_arena::storage_types as types;
use insight_arena::storage_types::{DataKey, Record};
use soroban_sdk::testutils::storage::Persistent as _;
use soroban_sdk::testutils::{
    Address as _, ContractFunctionSet, EnvTestConfig, Events as _, Ledger as _,
};
use soroban_sdk::token::{StellarAssetClient, TokenClient};
use soroban_sdk::{Address, Env, Error, IntoVal, InvokeError, Symbol, TryFromVal, Val};

// ── Host values and library values ───────────────────────────────────────────

type StoredMarket = (soroban_sdk::Vec<Symbol>, u64, i128, i128, i128, u32);
type StoredPrediction = (u64, Address, Symbol, i128, u64, bool, i128);
type StoredProfile = (Address, u32, i128, u64);

fn plain_address(address: &Address) -> types::Address {
    types::Address { strkey: format!("{}", address.to_string()) }
}

fn host_address(env: &Env, address: &types::Address) -> Address {
    Address::from_str(env, &address.strkey)
}

fn plain_symbol(symbol: &Symbol) -> types::Symbol {
    types::Symbol { text: symbol.to_string() }
}

fn host_symbol(env: &Env, symbol: &types::Symbol) -> Symbol {
    Symbol::new(env, &symbol.text)
}

fn host_key(env: &Env, key: &DataKey) -> Val {
    match key {
        DataKey::Market(id) => (Symbol::new(env, "Market"), *id).into_val(env),
        DataKey::Prediction(id, predictor) => {
            (Symbol::new(env, "Prediction"), *id, host_address(env, predictor)).into_val(env)
        }
        DataKey::PredictorList(id) => (Symbol::new(env, "PredictorList"), *id).into_val(env),
        DataKey::User(address) => {
            (Symbol::new(env, "User"), host_address(env, address)).into_val(env)
        }
    }
}

fn host_record(env: &Env, record: &Record) -> Val {
    match record {
        Record::Market(market) => {
            let mut options: soroban_sdk::Vec<Symbol> = soroban_sdk::Vec::new(env);
            for option in market.outcome_options.iter() {
                options.push_back(host_symbol(env, option));
            }
            let stored: StoredMarket = (
                options,
                market.end_time,
                market.min_stake,
                market.max_stake,
                market.total_pool,
                market.participant_count,
            );
            stored.into_val(env)
        }
        Record::Prediction(prediction) => {
            let stored: StoredPrediction = (
                prediction.market_id,
                host_address(env, &prediction.predictor),
                host_symbol(env, &prediction.chosen_outcome),
                prediction.stake_amount,
                prediction.submitted_at,
                prediction.payout_claimed,
                prediction.payout_amount,
            );
            stored.into_val(env)
        }
        Record::PredictorList(predictors) => {
            let mut list: soroban_sdk::Vec<Address> = soroban_sdk::Vec::new(env);
            for predictor in predictors.iter() {
                list.push_back(host_address(env, predictor));
            }
            list.into_val(env)
        }
        Record::User(profile) => {
            let stored: StoredProfile = (
                host_address(env, &profile.address),
                profile.total_predictions,
                profile.total_staked,
                profile.joined_at,
            );
            stored.into_val(env)
        }
    }
}

// ── The contract ─────────────────────────────────────────────────────────────

fn read<V>(env: &Env, key: &DataKey) -> Option<V>
where
    V: TryFromVal<Env, Val>,
    V::Error: std::fmt::Debug,
{
    env.storage().persistent().get(&host_key(env, key))
}

fn plain_market(stored: StoredMarket) -> types::Market {
    types::Market {
        outcome_options: stored.0.iter().map(|option| plain_symbol(&option)).collect(),
        end_time: stored.1,
        min_stake: stored.2,
        max_stake: stored.3,
        total_pool: stored.4,
        participant_count: stored.5,
    }
}

fn snapshot(env: &Env, market_id: u64, predictor: &types::Address) -> Snapshot {
    let keys = submission_keys(market_id, predictor);
    let market: Option<StoredMarket> = read(env, &keys.market);
    let predictors: Option<soroban_sdk::Vec<Address>> = read(env, &keys.predictors);
    let profile: Option<StoredProfile> = read(env, &keys.profile);
    Snapshot {
        market: market.map(plain_market),
        already_predicted: env.storage().persistent().has(&host_key(env, &keys.prediction)),
        predictors: predictors.map(|list| list.iter().map(|a| plain_address(&a)).collect()),
        profile: profile.map(|stored| types::UserProfile {
            address: plain_address(&stored.0),
            total_predictions: stored.1,
            total_staked: stored.2,
            joined_at: stored.3,
        }),
    }
}

#[allow(deprecated)]
fn perform(env: &Env, effect: &Effect) {
    let storage = env.storage().persistent();
    match effect {
        Effect::RequireAuth(address) => host_address(env, address).require_auth(),
        Effect::Transfer(transfer) => TokenClient::new(env, &host_address(env, &transfer.token))
            .transfer(
                &host_address(env, &transfer.from),
                &host_address(env, &transfer.to),
                &transfer.amount,
            ),
        Effect::Store(key, record) => storage.set(&host_key(env, key), &host_record(env, record)),
        Effect::ExtendTtl { key, threshold, extend_to } => {
            storage.extend_ttl(&host_key(env, key), *threshold, *extend_to)
        }
        Effect::Publish(event) => env.events().publish(
            (host_symbol(env, &event.topics.0), host_symbol(env, &event.topics.1)),
            (
                event.market_id,
                host_address(env, &event.predictor),
                host_symbol(env, &event.outcome),
                event.amount,
            ),
        ),
    }
}

/// The code under which the contract returns an error. Those below 1000 are the token's.
fn error_code(error: InsightArenaError) -> u32 {
    let position = ERRORS.iter().position(|known| *known == error).unwrap();
    1000 + position as u32
}

const ERRORS: [InsightArenaError; 9] = [
    InsightArenaError::NotInitialized,
    InsightArenaError::Paused,
    InsightArenaError::MarketNotFound,
    InsightArenaError::MarketExpired,
    InsightArenaError::InvalidOutcome,
    InsightArenaError::StakeTooLow,
    InsightArenaError::StakeTooHigh,
    InsightArenaError::AlreadyPredicted,
    InsightArenaError::Overflow,
];

fn invocation(env: &Env) -> Invocation {
    let token: Option<Address> = env.storage().instance().get(&Symbol::new(env, "token"));
    let paused: Option<bool> = env.storage().instance().get(&Symbol::new(env, "paused"));
    let bump: Option<u32> = env.storage().instance().get(&Symbol::new(env, "bump"));
    Invocation {
        contract: plain_address(&env.current_contract_address()),
        now: env.ledger().timestamp(),
        admission: if paused == Some(true) { Err(InsightArenaError::Paused) } else { Ok(()) },
        config: match token {
            Some(token) => Ok(types::Config { xlm_token: plain_address(&token) }),
            None => Err(InsightArenaError::NotInitialized),
        },
        ttl: TtlPolicy { threshold: 100, bump: bump.unwrap_or(1000) },
        effects: Vec::new(),
    }
}

struct Arena;

impl ContractFunctionSet for Arena {
    fn call(&self, func: &str, env: Env, args: &[Val]) -> Option<Val> {
        if func != "submit_prediction" {
            return None;
        }
        let predictor: Address = args[0].into_val(&env);
        let market_id: u64 = args[1].into_val(&env);
        let outcome: Symbol = args[2].into_val(&env);
        let stake_amount: i128 = args[3].into_val(&env);

        let predictor = plain_address(&predictor);
        let mut call = invocation(&env);
        let stored = match call.admission {
            Ok(()) => snapshot(&env, market_id, &predictor),
            Err(_) => Snapshot {
                market: None,
                already_predicted: false,
                predictors: None,
                profile: None,
            },
        };
        let result = submit_prediction(
            &mut call,
            stored,
            predictor,
            market_id,
            plain_symbol(&outcome),
            stake_amount,
        );
        for effect in call.effects.iter() {
            perform(&env, effect);
        }
        Some(match result {
            Ok(()) => ().into_val(&env),
            Err(error) => Error::from_contract_error(error_code(error)).into_val(&env),
        })
    }
}

// ── Test helpers ─────────────────────────────────────────────────────────────

struct Client {
    env: Env,
    address: Address,
}

fn new_env() -> Env {
    Env::new_with_config(EnvTestConfig { capture_snapshot_at_drop: false })
}

fn register_token(env: &Env) -> Address {
    let token_admin = Address::generate(env);
    env.register_stellar_asset_contract_v2(token_admin).address()
}

/// Deploys and initialises the contract; returns a client and the token's address.
fn deploy(env: &Env) -> (Client, Address) {
    let address = env.register(Arena, ());
    let xlm_token = register_token(env);
    env.mock_all_auths();
    env.as_contract(&address, || {
        env.storage().instance().set(&Symbol::new(env, "token"), &xlm_token);
    });
    (Client { env: env.clone(), address }, xlm_token)
}

/// Mints `amount` stroops to `recipient`.
fn fund(env: &Env, xlm_token: &Address, recipient: &Address, amount: i128) {
    StellarAssetClient::new(env, xlm_token).mint(recipient, &amount);
}

fn yes(env: &Env) -> Symbol {
    Symbol::new(env, "yes")
}

fn no(env: &Env) -> Symbol {
    Symbol::new(env, "no")
}

impl Client {
    /// Opens the market "yes or no" under `market_id`; it ends in 1000 seconds.
    fn create_market(&self, market_id: u64) -> u64 {
        let market = types::Market {
            outcome_options: vec![types::Symbol::new("yes"), types::Symbol::new("no")],
            end_time: self.env.ledger().timestamp() + 1000,
            min_stake: 10_000_000,
            max_stake: 100_000_000,
            total_pool: 0,
            participant_count: 0,
        };
        self.store(DataKey::Market(market_id), Record::Market(market));
        market_id
    }

    fn store(&self, key: DataKey, record: Record) {
        self.env.as_contract(&self.address, || {
            self.env
                .storage()
                .persistent()
                .set(&host_key(&self.env, &key), &host_record(&self.env, &record));
        });
    }

    fn set_paused(&self, paused: bool) {
        self.env.as_contract(&self.address, || {
            self.env.storage().instance().set(&Symbol::new(&self.env, "paused"), &paused);
        });
    }

    fn stored<V>(&self, key: DataKey) -> Option<V>
    where
        V: TryFromVal<Env, Val>,
        V::Error: std::fmt::Debug,
    {
        self.env.as_contract(&self.address, || read(&self.env, &key))
    }

    /// For how many ledgers the entry under `key` lives beyond this one.
    fn ttl(&self, key: &DataKey) -> u32 {
        self.env.as_contract(&self.address, || {
            self.env.storage().persistent().get_ttl(&host_key(&self.env, key))
        })
    }

    /// Bumps the market's entry `times` times in one invocation.
    fn bump_market(&self, market_id: u64, times: usize) {
        self.env.as_contract(&self.address, || {
            let mut call = invocation(&self.env);
            for _ in 0..times {
                call.extend_ttl(DataKey::Market(market_id));
            }
            for effect in call.effects.iter() {
                perform(&self.env, effect);
            }
        });
    }

    fn get_market(&self, market_id: u64) -> types::Market {
        plain_market(self.stored(DataKey::Market(market_id)).unwrap())
    }

    fn try_submit_prediction(
        &self,
        predictor: &Address,
        market_id: &u64,
        outcome: &Symbol,
        stake: &i128,
    ) -> Result<(), Result<InsightArenaError, InvokeError>> {
        let args: soroban_sdk::Vec<Val> =
            (predictor.clone(), *market_id, outcome.clone(), *stake).into_val(&self.env);
        let name = Symbol::new(&self.env, "submit_prediction");
        match self.env.try_invoke_contract::<(), Error>(&self.address, &name, args) {
            Ok(_) => Ok(()),
            Err(Ok(error)) => match InvokeError::from(error) {
                InvokeError::Contract(code) if code >= 1000 => {
                    Err(Ok(ERRORS[(code - 1000) as usize]))
                }
                other => Err(Err(other)),
            },
            Err(Err(error)) => Err(Err(error)),
        }
    }

    fn submit_prediction(
        &self,
        predictor: &Address,
        market_id: &u64,
        outcome: &Symbol,
        stake: &i128,
    ) {
        assert_eq!(self.try_submit_prediction(predictor, market_id, outcome, stake), Ok(()));
    }
}

// ── Accepted predictions ─────────────────────────────────────────────────────

#[test]
fn submit_prediction_success() {
    let env = new_env();
    env.mock_all_auths();
    let (client, xlm_token) = deploy(&env);
    let predictor = Address::generate(&env);

    let market_id = client.create_market(1);
    fund(&env, &xlm_token, &predictor, 20_000_000);

    client.submit_prediction(&predictor, &market_id, &yes(&env), &20_000_000_i128);

    let pred: StoredPrediction =
        client.stored(DataKey::Prediction(market_id, plain_address(&predictor))).unwrap();
    assert_eq!(pred.0, market_id);
    assert_eq!(pred.1, predictor);
    assert_eq!(pred.2, yes(&env));
    assert_eq!(pred.3, 20_000_000);
    assert!(!pred.5);
    assert_eq!(pred.6, 0);
}

#[test]
fn submit_prediction_fails_market_not_found() {
    let env = new_env();
    env.mock_all_auths();
    let (client, xlm_token) = deploy(&env);
    let predictor = Address::generate(&env);
    fund(&env, &xlm_token, &predictor, 20_000_000);

    let result =
        client.try_submit_prediction(&predictor, &99_u64, &yes(&env), &20_000_000_i128);
    assert!(matches!(result, Err(Ok(InsightArenaError::MarketNotFound))));
}

#[test]
fn submit_prediction_fails_market_expired() {
    let env = new_env();
    env.mock_all_auths();
    let (client, xlm_token) = deploy(&env);
    let predictor = Address::generate(&env);

    let market_id = client.create_market(1);
    fund(&env, &xlm_token, &predictor, 20_000_000);

    // Past the market's end.
    env.ledger().set_timestamp(env.ledger().timestamp() + 1001);

    let result =
        client.try_submit_prediction(&predictor, &market_id, &yes(&env), &20_000_000_i128);
    assert!(matches!(result, Err(Ok(InsightArenaError::MarketExpired))));
}

#[test]
fn submit_prediction_fails_invalid_outcome() {
    let env = new_env();
    env.mock_all_auths();
    let (client, xlm_token) = deploy(&env);
    let predictor = Address::generate(&env);

    let market_id = client.create_market(1);
    fund(&env, &xlm_token, &predictor, 20_000_000);

    let result = client.try_submit_prediction(
        &predictor,
        &market_id,
        &Symbol::new(&env, "maybe"),
        &20_000_000_i128,
    );
    assert!(matches!(result, Err(Ok(InsightArenaError::InvalidOutcome))));
}

#[test]
fn submit_prediction_fails_stake_too_low() {
    let env = new_env();
    env.mock_all_auths();
    let (client, xlm_token) = deploy(&env);
    let predictor = Address::generate(&env);

    let market_id = client.create_market(1);
    fund(&env, &xlm_token, &predictor, 20_000_000);

    // The minimum is 10_000_000.
    let result =
        client.try_submit_prediction(&predictor, &market_id, &yes(&env), &9_999_999_i128);
    assert!(matches!(result, Err(Ok(InsightArenaError::StakeTooLow))));
}

#[test]
fn submit_prediction_fails_stake_too_high() {
    let env = new_env();
    env.mock_all_auths();
    let (client, xlm_token) = deploy(&env);
    let predictor = Address::generate(&env);

    let market_id = client.create_market(1);
    fund(&env, &xlm_token, &predictor, 200_000_000);

    // The maximum is 100_000_000.
    let result =
        client.try_submit_prediction(&predictor, &market_id, &yes(&env), &100_000_001_i128);
    assert!(matches!(result, Err(Ok(InsightArenaError::StakeTooHigh))));
}

#[test]
fn submit_prediction_fails_already_predicted() {
    let env = new_env();
    env.mock_all_auths();
    let (client, xlm_token) = deploy(&env);
    let predictor = Address::generate(&env);

    let market_id = client.create_market(1);
    fund(&env, &xlm_token, &predictor, 40_000_000);

    client.submit_prediction(&predictor, &market_id, &yes(&env), &20_000_000_i128);

    // A second one on the same market is turned down.
    let result =
        client.try_submit_prediction(&predictor, &market_id, &no(&env), &20_000_000_i128);
    assert!(matches!(result, Err(Ok(InsightArenaError::AlreadyPredicted))));
}

#[test]
fn submit_prediction_fails_when_paused() {
    let env = new_env();
    env.mock_all_auths();
    let (client, xlm_token) = deploy(&env);
    let predictor = Address::generate(&env);

    let market_id = client.create_market(1);
    fund(&env, &xlm_token, &predictor, 20_000_000);

    client.set_paused(true);

    let result =
        client.try_submit_prediction(&predictor, &market_id, &yes(&env), &20_000_000_i128);
    assert!(matches!(result, Err(Ok(InsightArenaError::Paused))));
}

#[test]
fn submit_prediction_transfers_xlm_to_contract() {
    let env = new_env();
    env.mock_all_auths();
    let (client, xlm_token) = deploy(&env);
    let predictor = Address::generate(&env);
    let stake: i128 = 20_000_000;

    let market_id = client.create_market(1);
    fund(&env, &xlm_token, &predictor, stake);

    let token = TokenClient::new(&env, &xlm_token);
    assert_eq!(token.balance(&predictor), stake);
    assert_eq!(token.balance(&client.address), 0);

    client.submit_prediction(&predictor, &market_id, &yes(&env), &stake);

    assert_eq!(token.balance(&predictor), 0);
    assert_eq!(token.balance(&client.address), stake);
}

#[test]
fn submit_prediction_updates_market_total_pool_and_participant_count() {
    let env = new_env();
    env.mock_all_auths();
    let (client, xlm_token) = deploy(&env);
    let predictor_a = Address::generate(&env);
    let predictor_b = Address::generate(&env);

    let market_id = client.create_market(1);
    fund(&env, &xlm_token, &predictor_a, 20_000_000);
    fund(&env, &xlm_token, &predictor_b, 30_000_000);

    client.submit_prediction(&predictor_a, &market_id, &yes(&env), &20_000_000_i128);
    client.submit_prediction(&predictor_b, &market_id, &no(&env), &30_000_000_i128);

    let market = client.get_market(market_id);
    assert_eq!(market.total_pool, 50_000_000);
    assert_eq!(market.participant_count, 2);
}

#[test]
fn submit_prediction_creates_and_updates_user_profile() {
    let env = new_env();
    env.mock_all_auths();
    let (client, xlm_token) = deploy(&env);
    let predictor = Address::generate(&env);
    let stake: i128 = 20_000_000;

    let market_id = client.create_market(1);
    fund(&env, &xlm_token, &predictor, stake);

    client.submit_prediction(&predictor, &market_id, &yes(&env), &stake);

    let profile: StoredProfile =
        client.stored(DataKey::User(plain_address(&predictor))).unwrap();
    assert_eq!(profile.1, 1);
    assert_eq!(profile.2, stake);
    assert_eq!(profile.0, predictor);
}

#[test]
fn submit_prediction_accumulates_user_profile_across_markets() {
    let env = new_env();
    env.mock_all_auths();
    let (client, xlm_token) = deploy(&env);
    let predictor = Address::generate(&env);

    let market_id_1 = client.create_market(1);
    let market_id_2 = client.create_market(2);

    fund(&env, &xlm_token, &predictor, 50_000_000);

    client.submit_prediction(&predictor, &market_id_1, &yes(&env), &20_000_000_i128);
    client.submit_prediction(&predictor, &market_id_2, &no(&env), &30_000_000_i128);

    let profile: StoredProfile =
        client.stored(DataKey::User(plain_address(&predictor))).unwrap();
    assert_eq!(profile.1, 2);
    assert_eq!(profile.2, 50_000_000);
}

#[test]
fn submit_prediction_appends_to_predictor_list() {
    let env = new_env();
    env.mock_all_auths();
    let (client, xlm_token) = deploy(&env);
    let predictor_a = Address::generate(&env);
    let predictor_b = Address::generate(&env);

    let market_id = client.create_market(1);
    fund(&env, &xlm_token, &predictor_a, 20_000_000);
    fund(&env, &xlm_token, &predictor_b, 20_000_000);

    client.submit_prediction(&predictor_a, &market_id, &yes(&env), &20_000_000_i128);
    client.submit_prediction(&predictor_b, &market_id, &no(&env), &20_000_000_i128);

    let list: soroban_sdk::Vec<Address> =
        client.stored(DataKey::PredictorList(market_id)).unwrap();
    assert_eq!(list.len(), 2);
    assert_eq!(list.get(0).unwrap(), predictor_a);
    assert_eq!(list.get(1).unwrap(), predictor_b);
}

#[test]
fn submit_prediction_accepts_exact_min_stake() {
    let env = new_env();
    env.mock_all_auths();
    let (client, xlm_token) = deploy(&env);
    let predictor = Address::generate(&env);

    let market_id = client.create_market(1);
    fund(&env, &xlm_token, &predictor, 10_000_000);

    client.submit_prediction(&predictor, &market_id, &yes(&env), &10_000_000_i128);
    let market = client.get_market(market_id);
    assert_eq!(market.total_pool, 10_000_000);
}

#[test]
fn submit_prediction_accepts_exact_max_stake() {
    let env = new_env();
    env.mock_all_auths();
    let (client, xlm_token) = deploy(&env);
    let predictor = Address::generate(&env);

    let market_id = client.create_market(1);
    fund(&env, &xlm_token, &predictor, 100_000_000);

    client.submit_prediction(&predictor, &market_id, &yes(&env), &100_000_000_i128);
    let market = client.get_market(market_id);
    assert_eq!(market.total_pool, 100_000_000);
}

// ── What the host undoes ─────────────────────────────────────────────────────

#[test]
fn overflowing_submission_is_undone_as_a_whole() {
    let env = new_env();
    env.mock_all_auths();
    let (client, xlm_token) = deploy(&env);
    let predictor = Address::generate(&env);
    let market_id = client.create_market(1);
    let mut market = client.get_market(market_id);
    market.total_pool = i128::MAX - 1;
    client.store(DataKey::Market(market_id), Record::Market(market));
    fund(&env, &xlm_token, &predictor, 20_000_000);

    let result =
        client.try_submit_prediction(&predictor, &market_id, &yes(&env), &20_000_000_i128);
    assert!(matches!(result, Err(Ok(InsightArenaError::Overflow))));

    let token = TokenClient::new(&env, &xlm_token);
    assert_eq!(token.balance(&predictor), 20_000_000);
    assert_eq!(token.balance(&client.address), 0);
    let prediction: Option<StoredPrediction> =
        client.stored(DataKey::Prediction(market_id, plain_address(&predictor)));
    assert!(prediction.is_none());
    let list: Option<soroban_sdk::Vec<Address>> =
        client.stored(DataKey::PredictorList(market_id));
    assert!(list.is_none());
}

#[test]
fn submission_without_authorisation_is_aborted() {
    let env = new_env();
    let (client, xlm_token) = deploy(&env);
    let predictor = Address::generate(&env);
    let market_id = client.create_market(1);
    fund(&env, &xlm_token, &predictor, 20_000_000);
    env.set_auths(&[]);

    let result =
        client.try_submit_prediction(&predictor, &market_id, &yes(&env), &20_000_000_i128);
    assert!(matches!(result, Err(Err(InvokeError::Abort))));
    assert_eq!(client.get_market(market_id).participant_count, 0);

    // Without authorisation a missing market is not reported, but a pause is.
    let result = client.try_submit_prediction(&predictor, &99_u64, &yes(&env), &20_000_000_i128);
    assert!(matches!(result, Err(Err(InvokeError::Abort))));
    client.set_paused(true);
    let result =
        client.try_submit_prediction(&predictor, &market_id, &yes(&env), &20_000_000_i128);
    assert!(matches!(result, Err(Ok(InsightArenaError::Paused))));
}

#[test]
fn submission_without_funds_is_aborted_by_the_token() {
    let env = new_env();
    env.mock_all_auths();
    let (client, xlm_token) = deploy(&env);
    let predictor = Address::generate(&env);
    let market_id = client.create_market(1);
    fund(&env, &xlm_token, &predictor, 19_999_999);

    let result =
        client.try_submit_prediction(&predictor, &market_id, &yes(&env), &20_000_000_i128);
    assert!(matches!(result, Err(Err(InvokeError::Contract(_)))));
    assert_eq!(client.get_market(market_id).total_pool, 0);
    assert_eq!(TokenClient::new(&env, &xlm_token).balance(&predictor), 19_999_999);
    let prediction: Option<StoredPrediction> =
        client.stored(DataKey::Prediction(market_id, plain_address(&predictor)));
    assert!(prediction.is_none());

    // A guard that fails is told before the token is asked.
    let result =
        client.try_submit_prediction(&predictor, &market_id, &yes(&env), &100_000_001_i128);
    assert!(matches!(result, Err(Ok(InsightArenaError::StakeTooHigh))));
}

#[test]
fn broken_off_submission_extends_no_lifetime() {
    let env = new_env();
    env.ledger().set_min_persistent_entry_ttl(51);
    let (client, xlm_token) = deploy(&env);
    let predictor = Address::generate(&env);
    let market_id = client.create_market(1);
    fund(&env, &xlm_token, &predictor, 19_999_999);

    let result =
        client.try_submit_prediction(&predictor, &market_id, &yes(&env), &20_000_000_i128);
    assert!(matches!(result, Err(Err(InvokeError::Contract(_)))));
    assert_eq!(client.ttl(&DataKey::Market(market_id)), 50);
}

// ── Lifetimes ────────────────────────────────────────────────────────────────

#[test]
fn bumping_twice_is_bumping_once() {
    let env = new_env();
    env.ledger().set_min_persistent_entry_ttl(51);
    let (client, _) = deploy(&env);
    client.create_market(1);
    client.create_market(2);
    assert_eq!(client.ttl(&DataKey::Market(1)), 50);

    client.bump_market(1, 1);
    client.bump_market(2, 2);
    assert_eq!(client.ttl(&DataKey::Market(1)), 1000);
    assert_eq!(client.ttl(&DataKey::Market(2)), 1000);
    client.bump_market(1, 1);
    assert_eq!(client.ttl(&DataKey::Market(1)), 1000);
    let market = client.get_market(1);
    assert_eq!((market.total_pool, market.participant_count), (0, 0));
    assert_eq!((market.min_stake, market.max_stake), (10_000_000, 100_000_000));
}

#[test]
fn bump_waits_for_the_threshold() {
    let env = new_env();
    env.ledger().set_min_persistent_entry_ttl(102);
    let (client, _) = deploy(&env);
    client.create_market(1);
    client.bump_market(1, 1);
    assert_eq!(client.ttl(&DataKey::Market(1)), 101);

    env.ledger().set_sequence_number(env.ledger().sequence() + 1);
    client.bump_market(1, 1);
    assert_eq!(client.ttl(&DataKey::Market(1)), 1000);
}

#[test]
fn bump_goes_no_further_than_the_host_allows() {
    let env = new_env();
    env.ledger().set_min_persistent_entry_ttl(51);
    env.ledger().set_max_entry_ttl(500);
    let (client, _) = deploy(&env);
    client.create_market(1);
    client.bump_market(1, 2);
    assert_eq!(client.ttl(&DataKey::Market(1)), 500);
}

#[test]
fn bump_below_the_threshold_breaks_the_submission_off() {
    let env = new_env();
    let (client, xlm_token) = deploy(&env);
    let predictor = Address::generate(&env);
    let market_id = client.create_market(1);
    fund(&env, &xlm_token, &predictor, 20_000_000);
    let set_bump = |bump: u32| {
        env.as_contract(&client.address, || {
            env.storage().instance().set(&Symbol::new(&env, "bump"), &bump);
        });
    };

    set_bump(99);
    let result =
        client.try_submit_prediction(&predictor, &market_id, &yes(&env), &20_000_000_i128);
    assert!(matches!(result, Err(Err(InvokeError::Abort))));
    assert_eq!(TokenClient::new(&env, &xlm_token).balance(&predictor), 20_000_000);
    set_bump(100);
    client.submit_prediction(&predictor, &market_id, &yes(&env), &20_000_000_i128);
}

#[test]
fn accepted_submission_keeps_its_entries_alive() {
    let env = new_env();
    env.ledger().set_min_persistent_entry_ttl(51);
    let (client, xlm_token) = deploy(&env);
    let predictor = Address::generate(&env);
    let market_id = client.create_market(1);
    client.create_market(2);
    fund(&env, &xlm_token, &predictor, 20_000_000);

    client.submit_prediction(&predictor, &market_id, &yes(&env), &20_000_000_i128);
    let keys = submission_keys(market_id, &plain_address(&predictor));
    for key in [keys.market, keys.prediction, keys.predictors, keys.profile] {
        assert_eq!(client.ttl(&key), 1000);
    }
    assert_eq!(client.ttl(&DataKey::Market(2)), 50);
}

#[test]
fn accepted_submission_publishes_one_event() {
    let env = new_env();
    env.mock_all_auths();
    let (client, xlm_token) = deploy(&env);
    let predictor = Address::generate(&env);
    let market_id = client.create_market(1);
    fund(&env, &xlm_token, &predictor, 20_000_000);

    client.submit_prediction(&predictor, &market_id, &yes(&env), &20_000_000_i128);
    let published = env.events().all().filter_by_contract(&client.address);
    assert_eq!(published.events().len(), 1);
}

// ── The laws on one history ──────────────────────────────────────────────────

#[test]
fn books_balance_after_a_history() {
    let env = new_env();
    let (client, xlm_token) = deploy(&env);
    let token = TokenClient::new(&env, &xlm_token);
    let users: Vec<Address> = (0..3).map(|_| Address::generate(&env)).collect();
    for user in users.iter() {
        fund(&env, &xlm_token, user, 200_000_000);
    }
    client.create_market(1);
    client.create_market(2);

    // Who stakes how much on which market; some of it is turned down.
    let history: [(usize, u64, i128); 7] = [
        (0, 1, 20_000_000),
        (1, 1, 30_000_000),
        (0, 2, 40_000_000),
        (0, 1, 50_000_000),
        (2, 2, 9_000_000),
        (2, 2, 10_000_000),
        (1, 3, 10_000_000),
    ];
    let mut pools = [0_i128, 0];
    let mut counts = [0_u32, 0];
    let mut staked = [0_i128, 0, 0];
    let mut accepted = 0;
    for (who, market_id, stake) in history {
        if client.try_submit_prediction(&users[who], &market_id, &yes(&env), &stake).is_ok() {
            pools[(market_id - 1) as usize] += stake;
            counts[(market_id - 1) as usize] += 1;
            staked[who] += stake;
            accepted += 1;
        }
    }
    assert_eq!(accepted, 4);
    assert_eq!(pools, [50_000_000, 50_000_000]);
    for market_id in [1_u64, 2] {
        let market = client.get_market(market_id);
        assert_eq!(market.total_pool, pools[(market_id - 1) as usize]);
        assert_eq!(market.participant_count, counts[(market_id - 1) as usize]);
        let list: soroban_sdk::Vec<Address> =
            client.stored(DataKey::PredictorList(market_id)).unwrap();
        assert_eq!(list.len(), market.participant_count);
        for predictor in list.iter() {
            let key = DataKey::Prediction(market_id, plain_address(&predictor));
            let prediction: StoredPrediction = client.stored(key).unwrap();
            assert_eq!((prediction.0, prediction.1), (market_id, predictor));
        }
    }
    for (who, user) in users.iter().enumerate() {
        let profile: StoredProfile = client.stored(DataKey::User(plain_address(user))).unwrap();
        assert_eq!(profile.2, staked[who]);
        assert_eq!(token.balance(user), 200_000_000 - staked[who]);
    }
    assert_eq!(token.balance(&client.address), 100_000_000);
}

#[test]
fn market_balances_whatever_the_profiles_say() {
    let env = new_env();
    let (client, xlm_token) = deploy(&env);
    let users: Vec<Address> = (0..2).map(|_| Address::generate(&env)).collect();
    let market_id = client.create_market(1);
    for user in users.iter() {
        fund(&env, &xlm_token, user, 30_000_000);
        let profile = types::UserProfile {
            address: plain_address(user),
            total_predictions: 7,
            total_staked: 1,
            joined_at: 3,
        };
        client.store(DataKey::User(plain_address(user)), Record::User(profile));
        client.submit_prediction(user, &market_id, &yes(&env), &30_000_000_i128);
    }

    let market = client.get_market(market_id);
    assert_eq!((market.total_pool, market.participant_count), (60_000_000, 2));
    let list: soroban_sdk::Vec<Address> =
        client.stored(DataKey::PredictorList(market_id)).unwrap();
    assert_eq!(list.iter().collect::<Vec<Address>>(), users);
    let profile: StoredProfile = client.stored(DataKey::User(plain_address(&users[0]))).unwrap();
    assert_eq!((profile.1, profile.2, profile.3), (8, 30_000_001, 3));
}

#[test]
fn later_refund_undoes_the_lock() {
    let env = new_env();
    let (client, xlm_token) = deploy(&env);
    let token = TokenClient::new(&env, &xlm_token);
    let predictor = Address::generate(&env);
    let other = Address::generate(&env);
    let market_id = client.create_market(1);
    fund(&env, &xlm_token, &predictor, 60_000_000);
    fund(&env, &xlm_token, &other, 40_000_000);

    client.submit_prediction(&predictor, &market_id, &yes(&env), &50_000_000_i128);
    env.ledger().set_sequence_number(env.ledger().sequence() + 5);
    client.submit_prediction(&other, &market_id, &no(&env), &40_000_000_i128);
    env.as_contract(&client.address, || {
        let mut call = invocation(&env);
        assert_eq!(refund(&mut call, &plain_address(&predictor), 50_000_000), Ok(()));
        for effect in call.effects.iter() {
            perform(&env, effect);
        }
    });
    assert_eq!(token.balance(&predictor), 60_000_000);
    assert_eq!(token.balance(&other), 0);
    assert_eq!(token.balance(&client.address), 40_000_000);
}

#[test]
fn refund_gives_back_what_was_locked() {
    let env = new_env();
    let (client, xlm_token) = deploy(&env);
    let token = TokenClient::new(&env, &xlm_token);
    let predictor = Address::generate(&env);
    let winner = Address::generate(&env);
    let market_id = client.create_market(1);
    fund(&env, &xlm_token, &predictor, 60_000_000);

    client.submit_prediction(&predictor, &market_id, &yes(&env), &50_000_000_i128);
    assert_eq!(token.balance(&client.address), 50_000_000);

    env.as_contract(&client.address, || {
        let mut call = invocation(&env);
        assert_eq!(refund(&mut call, &plain_address(&predictor), 30_000_000), Ok(()));
        assert_eq!(release_payout(&mut call, &plain_address(&winner), 20_000_000), Ok(()));
        for effect in call.effects.iter() {
            perform(&env, effect);
        }
    });
    assert_eq!(token.balance(&predictor), 40_000_000);
    assert_eq!(token.balance(&winner), 20_000_000);
    assert_eq!(token.balance(&client.address), 0);
}
