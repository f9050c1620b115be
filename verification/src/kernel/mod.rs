//! The kernel's scheduling, process and power-management logic.
pub mod flat_process;
pub mod process;
pub mod ringq;
pub mod syscall;
pub mod thread;
pub mod psci;
pub mod smc;
pub mod userland;
pub mod semaphore;
