//! Mailbox messages of the firmware.
pub mod mbox;
