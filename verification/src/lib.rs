//! Chronos: the logic of a small single-core kernel, verified.
//!
//! At its heart is a scheduler that gives every task a budget of cycles
//! per turn, books what each turn cost, and benches a task that overran
//! three times in a row. The scheduler is a state machine: a step takes
//! the processor's registers and the trap that ended the task's turn as
//! values, so that every rule of dispatch, preemption and system calls
//! is stated over plain data. [`guarantees`] holds what follows from
//! those rules for every run.
//!
//! Around it stand the parts a kernel needs: interrupt setup, paging
//! arithmetic, drivers for disk, network card, mouse and keyboard as
//! far as they decide and compute, a file tree with its image on disk,
//! a window compositor, and a shell. Nothing here touches hardware; the
//! kernel binary performs the port and memory accesses these modules
//! ask for.

pub mod acpi;
pub mod allocator;
pub mod ata;
pub mod canvas;
pub mod commands;
pub mod compositor;
pub mod elf;
pub mod fat;
pub mod font;
pub mod fs;
pub mod gdt;
pub mod guarantees;
pub mod input;
pub mod interrupts;
pub mod keyboard;
pub mod logger;
pub mod memory;
pub mod mouse;
pub mod net;
pub mod pci;
pub mod process;
pub mod rtl8139;
pub mod scheduler;
pub mod serial;
pub mod shell;
pub mod state;
pub mod strings;
pub mod text;
pub mod time;
pub mod window_manager;
pub mod writer;
