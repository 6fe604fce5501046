//! Discovery and relationship resolution for a multi-chain rollup bridge.
//!
//! Every operation that needs answers from a node is written as a small
//! state machine: it names the next read-only query, takes the reply, and
//! finally yields its result. The caller owns the transport.
//!
//! Each machine has a model with the functions `pending`, `step` and `run`.
//! Its executable methods are specified by `pending` and `step`; a lemma
//! beside it states what a `run` against a whole chain yields.

pub mod error;
pub mod primitives;
pub mod query;
pub mod events;
pub mod scanner;
pub mod discovery;
pub mod bridgehub;
pub mod statetransition;
pub mod registered_asset;
pub mod l1_asset_router;
