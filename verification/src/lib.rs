//! Faceted answer set browsing: navigating the answer sets of a logic
//! program by activating facets, ranking the next steps by weight, and the
//! sampling and counting that go with it. What the answer set solver computes
//! comes in as arguments; the library decides what to ask it and what its
//! answers mean.

pub mod text;
pub mod symbol;
pub mod translator;
pub mod utils;
pub mod navigator;
pub mod cache;
pub mod filter;
pub mod commands;
pub mod cover;
pub mod components;
pub mod sampling;
pub mod collect;
pub mod dasc;
pub mod config;
