//! A ledger for parametric-insurance policies.
//!
//! The library holds the bookkeeping of policies whose payouts are triggered
//! by reported events: losses computed by a claims service wait for the
//! client's decision, accepted losses become obligations of the issuer, and
//! obligations are resolved into payments that draw down the policy balance.
//! Every operation is a plain state transition: the caller's account and the
//! current time are handed in as values.
use vstd::prelude::*;

pub mod accounts;
pub mod hurricane_oracle;
pub mod laws;
pub mod policy;
pub mod policy_manager;
pub mod quote_manager;
pub mod records;
pub mod table;
