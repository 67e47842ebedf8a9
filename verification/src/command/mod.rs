//! The commands. Each holds what the command line gave it and decides what
//! is to be done; reading and writing files is the caller's part.

pub mod common;
pub mod create_release_command;
pub mod generate_command;
pub mod has;
pub mod new_command;
pub mod release_command;
pub mod show;
pub mod verify_metadata_command;
