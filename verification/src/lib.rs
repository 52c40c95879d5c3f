pub mod command;
pub mod config;
pub mod control;
pub mod queue;
pub mod relay;
pub mod telegram;
pub mod text;
pub mod time;
