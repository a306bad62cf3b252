//! Decision core of a store-locator sweep: directory rows are classified,
//! upstream replies are decoded into store records, and a scheduler keeps
//! two bounded stages of requests in flight. Transport is left to the caller.

pub mod model;
pub mod regions;
pub mod classify;
pub mod json;
pub mod decode;
pub mod html;
pub mod directory;
pub mod expander;
pub mod leaf;
pub mod collector;
pub mod ratelimit;
pub mod schedule;
pub mod counting;
pub mod preserve;
pub mod sweep;
pub mod endpoint;
pub mod run;
pub mod upstream;
pub mod balance;
pub mod agreement;
pub mod distinct;
