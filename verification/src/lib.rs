//! A small register-based virtual machine: a two-pass assembler for its
//! line-oriented assembly dialect and an interpreter for the fixed-width
//! bytecode that the assembler emits.
//!
//! Every type has a mathematical model, its view, and every function a
//! contract over those models that Verus proves of its body. The modules
//! whose names end in `laws` hold what is proved of the models themselves.
//! Input, output and threads are left to the host: the machine collects
//! the lines it writes, and the shell says what its host has to print or
//! read.

pub mod assembler;
pub mod instruction;
pub mod repl;
pub mod sched;
pub mod vm;
pub mod vm_laws;
