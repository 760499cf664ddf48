//! One invocation of the contract: what was read for it, and what it asks to be done.

use vstd::prelude::*;

use crate::errors::InsightArenaError;
use crate::storage_types::{
    Address, Config, DataKey, DataKeyView, Record, RecordView, Symbol,
};

verus! {

/// A transfer of `amount` of `token` between two holders.
#[derive(Debug)]
pub struct Transfer {
    pub token: Address,
    pub from: Address,
    pub to: Address,
    pub amount: i128,
}

/// The mathematical content of a [`Transfer`].
pub struct TransferView {
    pub token: Seq<char>,
    pub from: Seq<char>,
    pub to: Seq<char>,
    pub amount: i128,
}

impl View for Transfer {
    type V = TransferView;

    open spec fn view(&self) -> TransferView {
        TransferView {
            token: self.token@,
            from: self.from@,
            to: self.to@,
            amount: self.amount,
        }
    }
}

/// The event that tells of an accepted prediction: two topics, then the data.
#[derive(Debug)]
pub struct PredictionSubmitted {
    pub topics: (Symbol, Symbol),
    pub market_id: u64,
    pub predictor: Address,
    pub outcome: Symbol,
    pub amount: i128,
}

/// The mathematical content of a [`PredictionSubmitted`] event.
pub struct PredictionSubmittedView {
    pub topics: (Seq<char>, Seq<char>),
    pub market_id: u64,
    pub predictor: Seq<char>,
    pub outcome: Seq<char>,
    pub amount: i128,
}

impl View for PredictionSubmitted {
    type V = PredictionSubmittedView;

    open spec fn view(&self) -> PredictionSubmittedView {
        PredictionSubmittedView {
            topics: (self.topics.0@, self.topics.1@),
            market_id: self.market_id,
            predictor: self.predictor@,
            outcome: self.outcome@,
            amount: self.amount,
        }
    }
}

/// One thing that is to be done on the ledger.
#[derive(Debug)]
pub enum Effect {
    /// Abort the invocation unless the address has authorised it.
    RequireAuth(Address),
    /// Move tokens; abort the invocation if the token refuses.
    Transfer(Transfer),
    /// Write a record under a key. Of a market, and of a profile that is there already, only the
    /// totals are written: whatever else the entry holds stays as it is.
    Store(DataKey, Record),
    /// Keep the entry under a key alive for `extend_to` more ledgers, if no more than
    /// `threshold` are left to it; abort the invocation if there is no such entry.
    ExtendTtl { key: DataKey, threshold: u32, extend_to: u32 },
    /// Publish an event.
    Publish(PredictionSubmitted),
}

/// The mathematical content of an [`Effect`].
pub enum EffectView {
    RequireAuth(Seq<char>),
    Transfer(TransferView),
    Store(DataKeyView, RecordView),
    ExtendTtl { key: DataKeyView, threshold: u32, extend_to: u32 },
    Publish(PredictionSubmittedView),
}

impl View for Effect {
    type V = EffectView;

    open spec fn view(&self) -> EffectView {
        match *self {
            Effect::RequireAuth(address) => EffectView::RequireAuth(address@),
            Effect::Transfer(transfer) => EffectView::Transfer(transfer@),
            Effect::Store(key, record) => EffectView::Store(key@, record@),
            Effect::ExtendTtl { key, threshold, extend_to } => EffectView::ExtendTtl {
                key: key@,
                threshold,
                extend_to,
            },
            Effect::Publish(event) => EffectView::Publish(event@),
        }
    }
}

/// How long persistent entries are kept alive: an entry with no more than `threshold` ledgers
/// left is given `bump` of them.
#[derive(Clone, Copy, Debug)]
pub struct TtlPolicy {
    pub threshold: u32,
    pub bump: u32,
}

/// An invocation of the contract.
///
/// The first five fields are what was read from the ledger before the call; `effects` is
/// what the call has asked for so far, in the order in which it is to be done. An invocation
/// that ends in an error, or is aborted by an effect, is undone as a whole.
#[derive(Debug)]
pub struct Invocation {
    /// The contract that runs.
    pub contract: Address,
    /// The time of the ledger that is being closed.
    pub now: u64,
    /// Whether the platform takes requests at all, and if not, why.
    pub admission: Result<(), InsightArenaError>,
    /// The platform's configuration, or why there is none.
    pub config: Result<Config, InsightArenaError>,
    /// The lifetime of the entries that the call touches.
    pub ttl: TtlPolicy,
    pub effects: Vec<Effect>,
}

/// The mathematical content of an [`Invocation`]; of the configuration, only the token counts.
pub struct InvocationView {
    pub contract: Seq<char>,
    pub now: u64,
    pub admission: Result<(), InsightArenaError>,
    pub token: Result<Seq<char>, InsightArenaError>,
    pub ttl: TtlPolicy,
    pub effects: Seq<EffectView>,
}

impl View for Invocation {
    type V = InvocationView;

    open spec fn view(&self) -> InvocationView {
        InvocationView {
            contract: self.contract@,
            now: self.now,
            admission: self.admission,
            token: match self.config {
                Ok(config) => Ok(config.xlm_token@),
                Err(error) => Err(error),
            },
            ttl: self.ttl,
            effects: self.effects@.map_values(|effect: Effect| effect@),
        }
    }
}

impl InvocationView {
    /// The same invocation after it has asked for more.
    pub open spec fn asking(self, more: Seq<EffectView>) -> InvocationView {
        InvocationView { effects: self.effects + more, ..self }
    }

    /// The effect that keeps the entry under `key` alive.
    pub open spec fn bump(self, key: DataKeyView) -> EffectView {
        EffectView::ExtendTtl { key, threshold: self.ttl.threshold, extend_to: self.ttl.bump }
    }
}

impl Invocation {
    /// Adds one effect behind those already asked for.
    pub fn ask(&mut self, effect: Effect)
        ensures
            final(self)@ == old(self)@.asking(seq![effect@]),
            final(self).effects@ == old(self).effects@.push(effect),
            *final(self) == (Invocation { effects: final(self).effects, ..*old(self) }),
    {
        self.effects.push(effect);
        assert(self@.effects =~= old(self)@.effects + seq![effect@]);
    }

    /// Asks that the entry under `key` be kept alive.
    pub fn extend_ttl(&mut self, key: DataKey)
        ensures
            final(self)@ == old(self)@.asking(seq![old(self)@.bump(key@)]),
            final(self).effects@ == old(self).effects@.push(
                Effect::ExtendTtl {
                    key,
                    threshold: old(self).ttl.threshold,
                    extend_to: old(self).ttl.bump,
                },
            ),
            *final(self) == (Invocation { effects: final(self).effects, ..*old(self) }),
    {
        let threshold: u32 = self.ttl.threshold;
        let extend_to: u32 = self.ttl.bump;
        self.ask(Effect::ExtendTtl { key, threshold, extend_to });
    }
}

} // verus!
