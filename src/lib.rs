//! Translation of on-chain model schemas into client-side component declarations.

pub mod json;
pub mod type_map;
pub mod naming;
pub mod schema;
pub mod emit;
pub mod profile;
