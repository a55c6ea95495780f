//! An append-only, hash-linked ledger of presence and reward events, with a
//! projection of users, online status, connections and a reward pool that is
//! kept up to date on every append and can be rebuilt by replaying the chain.

pub mod text;
pub mod block;
pub mod blockchain;
pub mod chat_data;
pub mod codec;
pub mod ledger_spec;
pub mod chat_blockchain;
pub mod api;
