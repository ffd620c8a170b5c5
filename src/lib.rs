//! Opcode-addressed token contracts: a free-mint issuance contract and an
//! owned (permissioned) mint contract, sharing name/symbol/supply bookkeeping.
//!
//! Every contract instance owns its persistent slots as plain values; the host
//! loads them before a call and stores them back afterwards.

pub mod arith;
pub mod call;
pub mod codec;
pub mod error;
pub mod free_mint;
pub mod owned_token;
pub mod token;
