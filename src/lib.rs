//! A small static-asset HTTP server library: content fingerprints, conditional
//! responses, a fixed router, uniform security headers and the supervision of
//! certificate events.

pub mod fingerprint;
pub mod http;
pub mod assets;
pub mod handler;
pub mod middleware;
pub mod router;
pub mod certs;
