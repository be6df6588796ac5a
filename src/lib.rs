//! Discovery of newly announced films by a roster of directors, reconciled
//! against an archive of films already seen, enriched with runtime and an
//! external identifier, and rendered into a notification.
//!
//! Discovery, reconciliation, enrichment and rendering are functions over
//! plain values; the email is assembled with lettre. Fetching, sending and
//! persisting are left to the caller.
pub mod model;
pub mod discovery;
pub mod email;
pub mod enrichment;
pub mod message;
pub mod pipeline;
