//! A replicated key-value store's command logic, HTTP-shim request handling,
//! and the workload, history and fault-schedule logic of its linearizability
//! test harness.

pub mod string_map;
pub mod decimal;
pub mod kv;
pub mod database;
pub mod replica;
pub mod shim;
pub mod history;
pub mod random;
pub mod generator;
pub mod client;
pub mod harness;
pub mod nemesis;
pub mod text;
pub mod fault_rounds;
