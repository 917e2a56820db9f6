//! Settlement core of an on-ledger NFT marketplace: a listing registry,
//! a secondary-market settlement engine (list / delist / buy), and a
//! primary-sale scheduler (time-boxed minting rounds with supply caps).
//!
//! Every operation is a pure state transition: it takes the persisted
//! collections as values, validates, and either returns an error with nothing
//! changed or commits all of its effects and reports the bank transfers the
//! surrounding transaction must execute.

pub mod allowable;
pub mod coin;
pub mod lex;
pub mod ownable;
pub mod redeemable;
pub mod sales;
pub mod sellable;
pub mod strlist;
pub mod token;
