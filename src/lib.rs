//! Process-management core of a small x86-64 kernel: per-process heap arenas
//! with an allocation ledger, a cooperative scheduler, and the system-call
//! dispatcher; with the pure parts of the kernel's drivers (archive and ACPI
//! table parsing, keyboard decoding, interrupt-controller and timer register
//! values, program loading).
pub mod arena;
pub mod process;
pub mod scheduler;
pub mod keyboard;
pub mod syscall;
pub mod vfs;
pub mod ustar;
pub mod rsdt;
pub mod apic;
pub mod pit;
pub mod console;
pub mod pic;
pub mod loader;
pub mod pci;
