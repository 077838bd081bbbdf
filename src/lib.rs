use vstd::prelude::*;

pub mod context;
pub mod elf;
pub mod gdt;
pub mod keyboard;
pub mod memory;
pub mod pci;
pub mod process;
pub mod process_manager;
pub mod shell;
pub mod syscall;
pub mod vfs;

verus! {

} // verus!
