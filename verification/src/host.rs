//! What the host and the token decide for an invocation, and how long the host keeps entries.

use vstd::prelude::*;

use crate::errors::InsightArenaError;
use crate::invocation::{InvocationView, TransferView};
use crate::prediction::Request;

verus! {

/// The side of an invocation that the contract has no say in.
///
/// Ledgers are numbered. An entry lives up to and including the ledger whose number is its
/// `live_until`.
pub struct Host {
    /// The addresses that have authorised the invocation.
    pub authorised: Set<Seq<char>>,
    /// The transfers against which the token has nothing but the sender's balance to say.
    pub permitted: Set<TransferView>,
    /// The number of the ledger that is being closed.
    pub sequence: u32,
    /// The last ledger of an entry that is written for the first time now.
    pub min_live_until: u32,
    /// The last ledger up to which an entry can be kept alive from now.
    pub max_live_until: u32,
}

impl Host {
    /// An entry that is written now lives at least through the ledger that is being closed.
    pub open spec fn valid(self) -> bool {
        self.sequence <= self.min_live_until
    }

    /// Whether the lifetime of an entry can be extended at all: the entry is alive, and the two
    /// bounds make sense. The host aborts the invocation otherwise.
    pub open spec fn can_extend(self, live_until: u32, threshold: u32, extend_to: u32) -> bool {
        &&& self.sequence <= live_until
        &&& threshold <= extend_to
        &&& self.sequence + extend_to <= u32::MAX
    }

    /// The lifetime of an entry after it was extended. One with more than `threshold` ledgers
    /// to go is left alone; any other gets `extend_to` ledgers, or as many as the host allows.
    /// No lifetime is ever cut short.
    pub open spec fn extended(self, live_until: u32, threshold: u32, extend_to: u32) -> u32 {
        let asked = self.sequence + extend_to;
        let granted = if asked <= self.max_live_until {
            asked as u32
        } else {
            self.max_live_until
        };
        if live_until - self.sequence <= threshold && live_until < granted {
            granted
        } else {
            live_until
        }
    }
}

/// How an invocation ends.
pub enum Outcome {
    /// Everything that it asked for was done.
    Accepted,
    /// It returned an error.
    Refused(InsightArenaError),
    /// The host or the token broke it off.
    Aborted,
}

/// A submission, with what is decided about it outside the contract.
pub struct Attempt {
    pub host: Host,
    pub call: InvocationView,
    pub request: Request,
}

impl Attempt {
    /// Whether the predictor has authorised the submission.
    pub open spec fn is_authorised(self) -> bool {
        self.host.authorised.contains(self.request.predictor)
    }

    /// The transfer of the stake into custody, in a token that is configured.
    pub open spec fn stake(self) -> TransferView {
        TransferView {
            token: self.call.token->Ok_0,
            from: self.request.predictor,
            to: self.call.contract,
            amount: self.request.stake_amount,
        }
    }

    /// Whether the lifetimes that the submission asks for can be had at all.
    pub open spec fn ttl_fits(self) -> bool {
        &&& self.call.ttl.threshold <= self.call.ttl.bump
        &&& self.host.sequence + self.call.ttl.bump <= u32::MAX
    }
}

} // verus!
