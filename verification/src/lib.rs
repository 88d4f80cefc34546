//! Core of a subscription service: layered configuration resolution, a
//! validated subscriber-email type, and the request/response logic of an
//! outbound transactional-email client.
//!
//! Everything here is plain data and logic; reading configuration documents
//! from disk, reading process environment variables and performing the HTTP
//! send are left to the surrounding binary, which hands plain values in and
//! out of this library.

pub mod configuration;
pub mod domain;
pub mod email_client;
pub mod startup;
pub mod text;
