pub mod callbacks;
pub mod map_file;
pub mod method_callbacks;
pub mod rpc;
pub mod structs;
pub mod xml;
