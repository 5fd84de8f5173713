//! Core of an atomic e-cash swap broker.
//!
//! A client holding tokens at one mint asks the broker for tokens at another.
//! The broker quotes a fee, reserves liquidity on the target mint, and drives
//! a two-leg exchange bound together by a Schnorr adaptor signature: revealing
//! one side's signature necessarily reveals the counter-party's unlock secret.
//!
//! This crate holds the verified core: fee arithmetic, request validation,
//! the per-mint liquidity ledger with two-phase reservation, the quote state
//! machine, and the adaptor-signature primitives (the curve operations are
//! performed by `schnorr_fun` behind trusted wrappers).

pub mod adaptor;

pub mod api;

pub mod broker;

pub mod codec;

pub mod config;

pub mod engine;

pub mod errors;

pub mod fee;

pub mod ledger;

pub mod records;

pub mod types;
