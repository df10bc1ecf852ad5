//! OpenMensa feed library: turns raw canteen menu items into an OpenMensa v2
//! XML document. The crate holds the canonical feed model, the grouping of raw
//! dishes into days, the descriptive-code tables used to build notes, and the
//! XML serializer for the wire format.
#![verifier::loop_isolation(false)]

use vstd::prelude::*;

pub mod aggregate;
pub mod builder;
pub mod feed_input;
pub mod laws;
pub mod model;
pub mod serialize;
pub mod strutil;
pub mod tables;
pub mod xml;

verus! {

/// Shared state of the HTTP layer: the deploy URL used to build
/// self-referential feed links, and the table mapping public identifiers to
/// canteen ids.
#[derive(Clone)]
pub struct AppState {
    pub deploy_url: Option<String>,
    pub registered_canteens: std::collections::HashMap<String, String>,
}

} // verus!
