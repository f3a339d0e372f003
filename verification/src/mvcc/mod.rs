pub mod kv;
pub mod revision;
