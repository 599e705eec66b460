//! Block headers, fees and payloads of a rollup sequencer.

pub mod account_proof;
pub mod builder;
pub mod bytes;
pub mod commitment;
pub mod data_source;
pub mod fee;
pub mod genesis;
pub mod header;
pub mod l1;
pub mod l1_client;
pub mod merkle;
pub mod nmt_serializer;
pub mod payload;
pub mod proposal;
pub mod text;
pub mod transaction;
pub mod u256;
