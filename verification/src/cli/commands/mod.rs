//! The subcommands of the program.
pub mod doctor;
pub mod init;
pub mod recover;
pub mod register;
pub mod tasks;
