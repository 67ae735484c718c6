pub mod text;
pub mod domain;
pub mod ownership;
pub mod commands;
pub mod export;
pub mod tui;
