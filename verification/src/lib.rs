//! Request-filtering core of an ExtProc-style HTTP filter: route resolution,
//! per-request plugin phase orchestration, Dempster-Shafer decision
//! combination against configured thresholds, and the framing of the
//! responses returned to the proxy.

pub mod decision;
pub mod tags;
pub mod sfv;
pub mod headers;
pub mod phase;
pub mod response;
pub mod router;
pub mod driver;
