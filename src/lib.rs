//! A shared-accumulator calculator service: a line protocol, an arithmetic
//! engine over a wide checked accumulator, and the per-request decisions of a
//! server and a client.

pub mod calculator;
pub mod client;
pub mod numbers;
pub mod operator;
pub mod protocol;
pub mod server;
pub mod text;
