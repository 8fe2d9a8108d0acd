//! Job application tracking.
//!
//! A user records the companies applied to and the pipeline status of each
//! application. The crate holds the rules of that system, each with a
//! contract that Verus proves:
//!
//! - `status`: the five pipeline stages, their wire tokens and display
//!   forms, and the cycle that leads from one to the next;
//! - `model`: companies, applications, requests, and the decoding of stored
//!   rows into list entries;
//! - `store`, `order`, `writer`: the two-table record store, the order of the
//!   list, and the atomic write of a company together with its application;
//! - `service`: reading the list and creating an application from a request;
//! - `refresh`: the version counters and the controller that fetches the
//!   list again exactly when a mutation has committed;
//! - `tracker`: store and controller run together;
//! - `card`: what a card of the list decides when the user changes a status.
//!
//! Identifiers and creation instants come from the `uuid` and `time` crates.
//! The calls into them stand in `ident` and `clock`, behind small functions
//! whose contracts are stated from the crates' sources and are not proved.

pub mod card;
pub mod clock;
pub mod error;
pub mod ident;
pub mod model;
pub mod order;
pub mod refresh;
pub mod service;
pub mod status;
pub mod store;
pub mod text;
pub mod tracker;
pub mod writer;
