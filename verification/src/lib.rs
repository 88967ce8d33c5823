//! Verified core of a small RISC-V teaching kernel: thread schedulers,
//! Sv39 page-table entries and mappings, id allocation, system-call
//! dispatch and the bookkeeping that the kernel does around them.

use vstd::prelude::*;

pub mod scheduler;
pub mod address;
pub mod page_table_entry;
pub mod frame;
pub mod page_table;
pub mod segment;
pub mod mapping;
pub mod memory_set;
pub mod context;
pub mod pid;
pub mod plic;
pub mod sysctl;
pub mod uart;
pub mod thread_trace;
pub mod thread_pool;
pub mod syscall;
pub mod user;
pub mod thread;
pub mod timer;
pub mod trap;
pub mod process;
pub mod elf;
pub mod matrix;
