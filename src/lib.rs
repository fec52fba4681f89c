pub mod cli;
pub mod config;
pub mod bmca;
pub mod wire;
pub mod filter;
pub mod port;
pub mod instance;
