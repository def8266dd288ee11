pub mod buffer;
pub mod connection;
pub mod error;
pub mod json;
pub mod packet;
pub mod registry;
pub mod session;
pub mod tag;
pub mod text;

pub use error::{MinecraftError, Result};
