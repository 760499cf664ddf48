# insight_arena

The rules of a prediction market whose stakes are held in escrow by a ledger contract, with
their contracts proved by Verus.

A submission names a predictor, a market, an outcome and a stake. The rules decide whether it is
accepted, and what has to happen on the ledger if it is: which authorisation to demand, which
tokens to move, which records to write, which event to publish, and in which order.

| Where | What |
| --- | --- |
| `src/errors.rs` | why a request is turned down |
| `src/storage_types.rs` | the records on the ledger and their keys |
| `src/invocation.rs` | one call: what was read for it, and what it asks for |
| `src/escrow.rs` | locking, refunding and paying out stakes |
| `src/prediction.rs` | submitting a prediction |
| `src/host.rs` | what the host and the token decide: authorisation, transfers, lifetimes |
| `src/ledger.rs` | what carrying out the effects does to a ledger or what breaks it off, and when its books balance |
| `src/laws.rs` | what always holds: how a submission ends, one prediction per predictor and market, balanced books, stakes in full custody, calls that fail or are broken off without a trace, repeated bumps |
| `app/` | the Soroban contract around the rules |
| `tests/` | the rules on plain values, and on the Soroban test host |

Reading the ledger, its clock and the configuration, demanding authorisation, calling the token
and publishing events are the host's business: `app/` does them, on what the rules say.
