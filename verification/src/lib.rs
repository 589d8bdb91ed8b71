//! Core logic of a metrics-merging endpoint.
//!
//! Monitoring agents that can scrape only one URL need the combined output of
//! several independently exposed metrics sources.  This library holds the
//! verified heart of such a service: classifying configured sources by their
//! scheme, parsing a configuration token into a group of fallback
//! alternatives, resolving a group by ordered fallback over fetch outcomes,
//! and assembling the merged response body.  The surrounding process (the
//! HTTP server, the actual network and file fetches, logging) lives outside
//! the library and exchanges plain values with it.

pub mod assemble;
pub mod config;
pub mod group;
pub mod outcome;
pub mod resolve;
pub mod source;
