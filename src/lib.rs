//! Relays "planted some grass" notices: a keyword filter over chat text, a
//! resolver that decides whom a message credits, and a composer that writes
//! the notice together with its rich-text spans, measured in UTF-16 code units.

pub mod units;
pub mod model;
pub mod compose;
pub mod resolve;
pub mod trigger;
pub mod relay;
