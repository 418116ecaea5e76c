//! A verified bookstore inventory library.
//!
//! The library models a catalog of books, each with a unique item number and a
//! non-negative stock count, and provides the domain operations of a small
//! store service: buying a single copy, restocking the whole catalog, looking
//! up titles by subject, and searching by item number. Every mutation of stock
//! is a single all-or-nothing step with an exact contract, so that serialized
//! sequences of such steps (the atomic units a concurrent deployment would
//! interleave) can be reasoned about in `laws`.

pub mod book;
pub mod controller;
pub mod errors;
pub mod laws;
pub mod render;
pub mod store;
