//! Command lines of the player and of its test program.
pub mod args;
pub mod test_args;
