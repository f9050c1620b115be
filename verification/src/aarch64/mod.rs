//! What the kernel computes for the hardware: random numbers, serial output, the frame
//! buffer and mailbox messages.
pub mod delays;
pub mod exception;
pub mod graphics;
pub mod mbox;
pub mod mmu;
pub mod rand;
pub mod uart;
