//! Decoder and encoder for a game's portable "blueprint exchange string":
//! a versioned, zlib-compressed, base64-encoded JSON description of placed
//! structures, tiles, and train schedules, together with the typed schema
//! model and its bidirectional JSON mapping rules.

pub mod analysis;
pub mod codec;
pub mod entity;
pub mod enums;
pub mod error;
pub mod json;
pub mod jsonio;
pub mod pipeline;
pub mod schema;
pub mod version;
