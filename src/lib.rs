//! Reading exactly `n` bytes from a byte source, with a reused scratch buffer.
//!
//! The decisions of such a read stand here as a state machine: [`ReadN::read`]
//! starts a read of `n` bytes and says what to ask of the source, and
//! [`ReadN::advance`] takes what the source answered and says what comes next.
//! Whoever owns the source (blocking or not) runs that loop and performs the I/O.

mod buffer;
mod reader;
mod laws;

pub use buffer::bytes_of;
pub use reader::{Event, Outcome, ReadError, ReadN, ReadNModel, Step};
pub use laws::{
    accepts, joined, lemma_no_stale_bytes, lemma_read_zero, lemma_reads_are_contiguous,
    lemma_reads_exactly, lemma_short_source_fails, run,
};
