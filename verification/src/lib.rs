//! Streaming of a binary signal to and from a USB peripheral with one bulk-OUT
//! and one bulk-IN endpoint.
//!
//! The signal is stored as run-length runs, expanded into a bit sequence, packed
//! into bytes most significant bit first, cut into 64-byte packets and handed to
//! the transport one packet per transfer slot, under a polarity that is fixed for
//! the whole session.
pub mod error;
pub mod codec;
pub mod bits;
pub mod packet;
pub mod pump;
