//! Address verification layer: a two-party confirmation protocol that binds a
//! sender and a receiver to a transaction before it may be executed.
//!
//! - `primitives`: addresses, calls and the three transaction records.
//! - `codec`: the byte format of the records, with decoding proved inverse to encoding.
//! - `commitment`: the commitment of a sender and a receiver, and transaction identifiers.
//! - `signature`: checking that an address signed a message.
//! - `store`: the tables behind the protocol.
//! - `handler`: the store operations.
//! - `protocol`: submission, confirmation and reversion, with the laws they obey.
//! - `fanout`: the snapshots that subscribers read.

pub mod primitives;
pub mod codec;
pub mod commitment;
pub mod signature;
pub mod store;
pub mod handler;
pub mod protocol;
pub mod fanout;
