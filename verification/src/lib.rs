//! Issues signed license tokens for vessels: the records of the inventory and
//! license registries are gathered page by page, turned into JWT claims and
//! signed with HMAC-SHA512.

pub mod api;
pub mod clock;
pub mod generator;
pub mod handler;
pub mod identifier;
pub mod model;
pub mod runtime_error;
pub mod signer;
