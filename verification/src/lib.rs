//! Harvesting a two-level catalog of banks and their branches from the pages
//! of an HTML query service.
//!
//! The catalog of the service is cut into shards by the search keys of
//! `keys`. For each shard a form of `request` is sent, and the page that
//! answers it is parsed by `parser` into the records of `bank`, row by row
//! as `table` says; `dom` is the boundary to the HTML parser. `fanout`
//! gathers what the shards brought, `catalog` merges the banks under their
//! codes, and `stored` says what of a bank is written down.
//!
//! Sending requests and writing files is left to the program that uses the
//! library: every function here goes from values to values.

pub mod bank;
pub mod catalog;
pub mod dom;
pub mod fanout;
pub mod keys;
pub mod parser;
pub mod request;
pub mod stored;
pub mod table;
