//! Core of a stateless HTTP forwarding proxy. For each inbound request it
//! resolves a target URL from the query string, a header or the path,
//! filters reserved parameters out of the query and merges the rest onto the
//! target, scrubs the request headers and injects a synthetic forwarded-for
//! identity when none is present, and sanitizes the upstream response
//! headers for relaying with CORS applied. Every decision is made here, over
//! plain values, and proved against the specifications in each module; the
//! hosting runtime only carries the resulting plan out.

pub mod headers;
pub mod ip;
pub mod params;
pub mod pipeline;
pub mod text;
pub mod urls;
