//! cryptotui: streaming primitives for a live crypto-market dashboard.
//!
//! The library holds a fixed-capacity ring buffer, whose contents are
//! modelled as the sequence of retained items from oldest to newest,
//! and the warm-up schedule of Wilder's RSI, which decides on every
//! tick whether a reading is due. Both are verified against their
//! contracts.

pub mod error;
pub mod indicators;
