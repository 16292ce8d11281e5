//! The subcommands of `cargo ship`.

pub mod changes;
