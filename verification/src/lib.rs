//! Dynamic-DNS core: keeps an address record pointed at the caller's
//! current public IP address.
//!
//! The crate verifies the two logic-dense halves of the system:
//! the edge-side connecting-IP extraction and normalization, and the
//! client-side update orchestration pipeline with its layered error
//! model.  Transport (HTTP) and JSON framing live outside the library;
//! they hand plain decoded values in and take plain values back.

pub mod edge;
pub mod envelope;
pub mod ip;
pub mod ip_format;
pub mod ip_parse;
pub mod orchestrator;
pub mod provider;
pub mod record;
pub mod text;
pub mod worker;

use vstd::prelude::*;

verus! {

} // verus!
