//! Consumption metrics of a multi-tenant storage service: from what is known of a timeline or a
//! tenant in one collection round, and from the facts sent in earlier rounds, the facts to send
//! now, with their time bounds and values, and the JSON text they are sent as.

pub mod event;
pub mod ids;
pub mod metrics;
pub mod tenant;
pub mod text;
pub mod timeline;
