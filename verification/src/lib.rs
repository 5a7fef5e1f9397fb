//! A verified in-memory note store: an ordered collection of titled text
//! records addressed by monotonically assigned identifiers, with
//! create/read/update/delete operations and a log of the notifications each
//! mutation raises.

pub mod laws;
pub mod model;
pub mod store;
