//! An escrow-style payment lifecycle: a payer commits to pay a fixed amount
//! to a recipient, and the commitment is later completed (funds move) or
//! cancelled (no funds move). Records live at addresses derived from the
//! program, the payer and the payment identifier.
//!
//! The library decides; the ledger acts. Each handler reads a snapshot of the
//! accounts it is given and returns the ledger operations to perform, in
//! order, or the error that aborts the instruction.

pub mod address;
pub mod codec;
pub mod instruction;
pub mod ledger;
pub mod lifecycle;
pub mod processor;
pub mod state;
