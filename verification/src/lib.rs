//! A verified weather-lookup core: an immutable city catalog,
//! case-insensitive lookup with request validation, and summary
//! statistics with a client-selectable stable sort order.
//!
//! The HTTP framing around this library (routing, JSON, timestamps)
//! lives outside it; everything here is plain computation with proved
//! contracts.

pub mod catalog;
pub mod listing;
pub mod lookup;
pub mod mcp;
pub mod record;
pub mod sorting;
pub mod stats;
pub mod strs;
