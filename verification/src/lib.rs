//! Verified model of the AutoShare contract: payment-sharing groups with
//! subscription usages, an admin, a pause switch, a token allow-list and
//! payment records, over a typed model of the contract's storage.
pub mod ids;
pub mod model;
pub mod table;
pub mod store;
pub mod admin;
pub mod tokens;
pub mod members;
pub mod history;
pub mod groups;
pub mod usage;
pub mod treasury;
pub mod laws;
pub mod categories;
