//! Runs commands as another user.
//!
//! The program reads a command line, finds out who calls and whom to act as, lets the caller
//! authenticate where that is needed, and runs the command: through `systemd-run` or `run0`, or
//! directly in the scope of the caller, with or without a PAM session around it.
//!
//! This library decides what is done; it does no input or output itself. Where decisions and
//! system calls alternate, it offers a state machine: the caller makes the call that the machine
//! asks for and hands the result back.
//!
//! - `cli` reads the command line and puts the command together.
//! - `modules::auth` decides who may act as whom, with `ffi::pam` and `ffi::shadow`.
//! - `modules::passwd` reads passwords at a prompt or from a helper program.
//! - `modules::env` chooses the environment of the command.
//! - `modules::user` finds users and groups by name or number.
//! - `modules::proc`, `modules::path`, `modules::fork_sync`, `modules::fg_handler`,
//!   `modules::sig_handler` and `modules::signal_recv` start the command and watch it.

pub mod cli;
pub mod ffi;
pub mod modules;
pub mod shared;
pub mod text;
