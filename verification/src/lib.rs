//! Pseudo Motion OS core: the syscall ABI, the process table, the virtual
//! file system, the kernel's syscall dispatcher, the Conjure DSL front end
//! and the shell's command palette.

pub mod abi;
pub mod text;
pub mod json;
pub mod proc;
pub mod path;
pub mod store;
pub mod vfs;
pub mod ai;
pub mod kernel;
pub mod expr;
pub mod conjure;
pub mod apps;
pub mod palette;
pub mod terminal;
pub mod voicekit;
pub mod notes;
pub mod tools;
pub mod shell;
pub mod files;
pub mod settings;
pub mod fusion;
pub mod signs;
