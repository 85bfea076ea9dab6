//! A governance ledger: addressable registry, group, proposal and user
//! records, stored as discriminator-tagged binary slots, with a
//! proposal/voting state machine.
pub mod address;
pub mod error;
pub mod events;
pub mod wire;
pub mod records;
pub mod client;
pub mod codec;
pub mod dispatch;
pub mod governance;
pub mod instruction;
pub mod ledger;
