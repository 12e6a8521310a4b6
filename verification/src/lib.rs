//! An intercepting DNS relay library: a byte-level walker over the DNS wire
//! format, an eligibility policy for queries, and a mutator that splices TXT
//! records into a message while keeping its count fields consistent.

pub mod constants;
pub mod eligibility;
pub mod errors;
pub mod header;
pub mod parser;
pub mod properties;
pub mod response_writer;
pub mod serializer;
pub mod session;
pub mod wire;
