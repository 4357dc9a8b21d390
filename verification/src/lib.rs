//! Verified core of a StandX perpetuals connector: order bookkeeping,
//! wire-format conversions, request signing and the decisions taken on
//! exchange replies.

pub mod clock;
pub mod config;
pub mod connector;
pub mod encoding;
pub mod error;
pub mod msg;
pub mod order_laws;
pub mod ordermanager;
pub mod rest;
pub mod stream;
pub mod text;
pub mod types;
