//! Two registries and the protocol between them.
//!
//! The identity registry ([`sbt::SBT`]) binds accounts to numeric
//! identifiers in two steps: its operator reserves an identifier for an
//! account, and the account claims it with its proof material.
//!
//! The achievement registry ([`token::AchievementToken`]) keeps issuance
//! records with a balance in escrow. Whoever asks it for a change must be
//! the issuer, the owner or the verifier of the record, and only the
//! identity registry can tell. So a change is asked for in one call, which
//! hands back a lookup for the host to send, and is committed or abandoned
//! in the callback that receives the answer. What the registry is as a
//! mathematical value, and what each call makes of it, is in [`ledger`];
//! what holds of every sequence of calls is in [`history`] and
//! [`guarantees`].
//!
//! The registries neither read the host's environment nor move value: the
//! signer and the deposit come in as a [`host::CallContext`], and transfers
//! go out as [`host::Transfer`] orders.

pub mod achievement;
pub mod error;
pub mod guarantees;
pub mod history;
pub mod host;
pub mod index;
pub mod ledger;
pub mod protocol;
pub mod sbt;
pub mod token;
