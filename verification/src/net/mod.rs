//! Bookkeeping of the TCP layer: connection ids, the table of open
//! connections with its admission limit, and what to do with the outcome of
//! a read.
pub mod tcp;
