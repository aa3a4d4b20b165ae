//! Discovery and status probing of remote game servers: address resolution,
//! response decoding, the fallback policy between protocol families, and the
//! small settings store and launch-argument reader that sit beside them.
pub mod error;
pub mod endpoint;
pub mod decode;
pub mod probe;
pub mod string_map;
pub mod settings;
pub mod launch;
pub mod monitor;
