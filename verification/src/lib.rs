//! Verified application logic of the fixed-income analytics platform: exact decimal
//! arithmetic, portfolio metric aggregation, canonical evidence encodings and the typed
//! decisions that the application use cases take on the values their repositories return.

pub mod error;
pub mod decimal;
pub mod rational;
pub mod bytes;
pub mod aggregation;
pub mod primitives;
pub mod digest;
pub mod universe;
pub mod hex;
pub mod text;
pub mod workbench;
pub mod catalog;
pub mod performance;
pub mod futures;
pub mod use_cases;
pub mod quotes;
pub mod cursor;
pub mod data_health;
pub mod calendar;
pub mod evidence;
pub mod overview;
pub mod risk;
pub mod hierarchy;
pub mod listing;
pub mod resolution;
pub mod fingerprint;
pub mod formal_inputs;
pub mod services;
pub mod risk_analysis;
pub mod snapshot_payloads;
pub mod delivery;
pub mod bond_analysis;
pub mod phase1;
pub mod overview_flow;
pub mod overview_draft;
pub mod replay;
pub mod overview_payload;
