pub mod input;
pub mod filter_panel;
pub mod status_bar;
pub mod table;
pub mod ui;
