pub mod frame;
pub mod reader;
pub mod serverbound;
pub mod varint;
pub mod wire;
