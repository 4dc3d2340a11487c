//! The outward view records the transport layer serializes: entity and
//! binding rows with their timestamps rendered as RFC 3339 text, and the
//! input schemes requests arrive in.

pub mod groups;
pub mod permissions;
pub mod roles;
pub mod users;
