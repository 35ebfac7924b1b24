//! A modular state-transition engine for a rollup.
//!
//! The engine turns an ordered sequence of data-availability blobs into
//! state changes over a versioned key-value store, while enforcing
//! economic security over the sequencer that posted each blob.  Every
//! piece of logic here is verified: the scoped working set, the module
//! registry and call dispatcher, the transaction and blob hook pipeline,
//! the sequencer-registry bonding rules, and the slot lifecycle state
//! machine that glues them together.

pub mod accounts;
pub mod address;
pub mod bank;
pub mod codec;
pub mod election;
pub mod errors;
pub mod sequencer_registry;
pub mod runtime;
pub mod state;
pub mod stf;
pub mod storage;
pub mod swap;
pub mod value_setter;
