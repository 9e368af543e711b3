//! The system information of a Linux host, worked out from the text that the
//! kernel publishes.
//!
//! Nothing here touches a file or calls the kernel: every function takes what was
//! read as plain values, and says exactly what follows from it.
pub mod chars;
pub mod cpu;
pub mod cpu_refresh;
pub mod decimal;
pub mod limits;
pub mod load;
pub mod memory;
pub mod process;
pub mod process_refresh;
pub mod refresh;
pub mod release;
pub mod signal;
pub mod stat;
pub mod system;
pub mod text;

