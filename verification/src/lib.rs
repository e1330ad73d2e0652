//! A recurring-payment entitlement ledger.
//!
//! Merchants publish a subscription product (a price and a billing interval);
//! subscribers pay to open a subscription record that grants time-boxed
//! entitlement; the record can be renewed (extending its expiry and
//! accumulating the amount paid) or canceled (a terminal state). Any party
//! can query whether a subscriber currently holds valid entitlement.
//!
//! Records live in a [`store::Store`] addressed by deterministic keys derived
//! from identity tuples ([`keys`]); payments move through a [`gateway::Balances`]
//! ledger; the operations themselves are in [`engine`], and the properties that
//! relate them to one another are proved in [`laws`]. Every operation takes the
//! current time as an explicit argument, so no function here reads a clock.

pub mod engine;
pub mod errors;
pub mod gateway;
pub mod keys;
pub mod laws;
pub mod records;
pub mod store;
