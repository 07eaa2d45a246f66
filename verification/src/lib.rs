//! Client-side request authentication for an OSS-style object-storage HTTP
//! API: canonicalization of a request's signable fields, keyed-hash signing,
//! and assembly of either an `Authorization` header or a pre-signed URL.

pub mod auth;
pub mod encode;
pub mod oss;
pub mod params;
pub mod request;
pub mod text;
