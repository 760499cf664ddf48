//! Stakes in custody: the contract holds them from the prediction on, until it pays them out
//! or gives them back.

use vstd::prelude::*;

use crate::errors::InsightArenaError;
use crate::invocation::{Effect, EffectView, Invocation, InvocationView, Transfer, TransferView};
use crate::storage_types::Address;

verus! {

/// The movement of `amount` of the configured token, if there is a configuration.
pub open spec fn movement(
    call: InvocationView,
    from: Seq<char>,
    to: Seq<char>,
    amount: i128,
) -> Seq<EffectView> {
    match call.token {
        Ok(token) => seq![EffectView::Transfer(TransferView { token, from, to, amount })],
        Err(_) => seq![],
    }
}

/// The outcome of asking for a movement: the error, if any, with which the configuration was
/// not to be had.
pub open spec fn movement_result(call: InvocationView) -> Result<(), InsightArenaError> {
    match call.token {
        Ok(_) => Ok(()),
        Err(error) => Err(error),
    }
}

/// Asks for a transfer of `amount` of the configured token.
fn move_tokens(call: &mut Invocation, from: &Address, to: &Address, amount: i128) -> (result: Result<
    (),
    InsightArenaError,
>)
    ensures
        final(call)@ == old(call)@.asking(movement(old(call)@, from@, to@, amount)),
        result == movement_result(old(call)@),
        *final(call) == (Invocation { effects: final(call).effects, ..*old(call) }),
        match old(call).config {
            Ok(config) => {
                &&& result == Ok::<(), InsightArenaError>(())
                &&& final(call).effects@ == old(call).effects@.push(
                    Effect::Transfer(
                        Transfer {
                            token: config.xlm_token,
                            from: *from,
                            to: *to,
                            amount,
                        },
                    ),
                )
            },
            Err(error) => {
                &&& result == Err::<(), InsightArenaError>(error)
                &&& final(call).effects@ == old(call).effects@
            },
        },
{
    let token = match &call.config {
        Ok(config) => config.xlm_token.clone(),
        Err(error) => {
            let error = *error;
            assert(call@.effects + Seq::<EffectView>::empty() =~= call@.effects);
            return Err(error);
        },
    };
    call.ask(Effect::Transfer(Transfer { token, from: from.clone(), to: to.clone(), amount }));
    Ok(())
}

/// Moves `amount` stroops from `predictor` into the contract's custody.
///
/// Asks for nothing and passes the error on where the configuration is not to be had.
pub fn lock_stake(call: &mut Invocation, predictor: &Address, amount: i128) -> (result: Result<
    (),
    InsightArenaError,
>)
    ensures
        final(call)@ == old(call)@.asking(
            movement(old(call)@, predictor@, old(call)@.contract, amount),
        ),
        result == movement_result(old(call)@),
        *final(call) == (Invocation { effects: final(call).effects, ..*old(call) }),
        match old(call).config {
            Ok(config) => {
                &&& result == Ok::<(), InsightArenaError>(())
                &&& final(call).effects@ == old(call).effects@.push(
                    Effect::Transfer(
                        Transfer {
                            token: config.xlm_token,
                            from: *predictor,
                            to: old(call).contract,
                            amount,
                        },
                    ),
                )
            },
            Err(error) => {
                &&& result == Err::<(), InsightArenaError>(error)
                &&& final(call).effects@ == old(call).effects@
            },
        },
{
    let contract = call.contract.clone();
    move_tokens(call, predictor, &contract, amount)
}

/// Gives `amount` stroops out of the contract's custody back to `recipient`, as when a market
/// is cancelled.
///
/// Asks for nothing and passes the error on where the configuration is not to be had.
pub fn refund(call: &mut Invocation, recipient: &Address, amount: i128) -> (result: Result<
    (),
    InsightArenaError,
>)
    ensures
        final(call)@ == old(call)@.asking(
            movement(old(call)@, old(call)@.contract, recipient@, amount),
        ),
        result == movement_result(old(call)@),
        *final(call) == (Invocation { effects: final(call).effects, ..*old(call) }),
        match old(call).config {
            Ok(config) => {
                &&& result == Ok::<(), InsightArenaError>(())
                &&& final(call).effects@ == old(call).effects@.push(
                    Effect::Transfer(
                        Transfer {
                            token: config.xlm_token,
                            from: old(call).contract,
                            to: *recipient,
                            amount,
                        },
                    ),
                )
            },
            Err(error) => {
                &&& result == Err::<(), InsightArenaError>(error)
                &&& final(call).effects@ == old(call).effects@
            },
        },
{
    let contract = call.contract.clone();
    move_tokens(call, &contract, recipient, amount)
}

/// Pays `amount` stroops out of the contract's custody to the winner `predictor`.
///
/// Asks for nothing and passes the error on where the configuration is not to be had.
pub fn release_payout(call: &mut Invocation, predictor: &Address, amount: i128) -> (result: Result<
    (),
    InsightArenaError,
>)
    ensures
        final(call)@ == old(call)@.asking(
            movement(old(call)@, old(call)@.contract, predictor@, amount),
        ),
        result == movement_result(old(call)@),
        *final(call) == (Invocation { effects: final(call).effects, ..*old(call) }),
        match old(call).config {
            Ok(config) => {
                &&& result == Ok::<(), InsightArenaError>(())
                &&& final(call).effects@ == old(call).effects@.push(
                    Effect::Transfer(
                        Transfer {
                            token: config.xlm_token,
                            from: old(call).contract,
                            to: *predictor,
                            amount,
                        },
                    ),
                )
            },
            Err(error) => {
                &&& result == Err::<(), InsightArenaError>(error)
                &&& final(call).effects@ == old(call).effects@
            },
        },
{
    let contract = call.contract.clone();
    move_tokens(call, &contract, predictor, amount)
}

} // verus!
