//! Framing of queries and responses, one module for each protocol.

pub mod cplus;
