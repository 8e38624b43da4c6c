//! A mail forwarder's decision logic: which root domain a mail host belongs
//! to, how a recipient list becomes an envelope, and the state machine that
//! takes one polling cycle from connecting to the mailbox through to closing
//! the session. Network traffic is left to the caller.
//!
//! Everything here is verified but for two functions, which are believed:
//! `lookup_root` in `domain`, which asks the `addr` crate for the root of a
//! host name, and `address_parses` in `address`, which asks `lettre` whether
//! a text is an address. What is proved of the rest is proved from what
//! their contracts say.

pub mod address;
pub mod batch;
pub mod config;
pub mod cycle;
pub mod domain;
pub mod error;
pub mod message;
pub mod text;
pub mod trace;
