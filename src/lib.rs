//! Verified core of a point-of-sale backend: catalog lookup, stock
//! reservation, bundle pricing and receipt computation.

pub mod auth;
pub mod bundles;
pub mod clients;
pub mod identifier;
pub mod inventory;
pub mod receipts;
pub mod records;
pub mod reservation;
pub mod sales;
