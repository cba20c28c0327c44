use vstd::prelude::*;

pub mod adb_flow;
pub mod auth;
pub mod bridge;
pub mod challenge;
pub mod date;
pub mod date_order;
pub mod keys;
pub mod params;
pub mod pin;
pub mod ping;
pub mod proxy;
pub mod text;
pub mod token;
pub mod ui;

verus! {
}
