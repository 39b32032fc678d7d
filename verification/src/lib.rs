//! Sandbox policy for the threads of a virtual machine monitor, and the
//! machine options of the guest.
//!
//! The policy side models an allow-list of system calls, lowers it to a
//! classic BPF filter program, and proves that the program decides every
//! call exactly as the allow-list does. The option side parses the memory,
//! processor and machine settings given on the command line.
//!
//! Policy:
//! - `bpf`: instructions, the call descriptor, and what a program returns;
//! - `rule`: a permitted system call and the values its arguments may take;
//! - `layout`: where each instruction of a compiled policy stands;
//! - `soundness`, `shape`: why the layout decides as the policy does, and
//!   why every branch lands inside the program;
//! - `compiler`: policies, and their compilation under a ceiling;
//! - `laws`: what holds of every policy and its program;
//! - `ioctls`, `syscall`: the allow-list of a machine thread;
//! - `startup`: the filter of a thread and what follows its installation.
//!
//! Options:
//! - `text`: characters, separators and decimal numbers;
//! - `errors`: why an option was refused;
//! - `cmd_parser`: options of the form `value,key=value`;
//! - `machine_config`: the machine, its processors and its memory.

pub mod bpf;
pub mod rule;
pub mod layout;
pub mod soundness;
pub mod shape;
pub mod compiler;
pub mod laws;
pub mod ioctls;
pub mod syscall;
pub mod startup;
pub mod text;
pub mod errors;
pub mod cmd_parser;
pub mod machine_config;
