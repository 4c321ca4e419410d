//! Client library for the request/response protocol of a heat-pump LAN
//! adapter: envelope building, response correlation, path extraction and
//! typed conversion of the extracted values.

pub mod accessors;
pub mod codec;
pub mod convert;
pub mod engine;
pub mod error;
pub mod json;
pub mod path;
pub mod wire;
