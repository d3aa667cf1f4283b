pub mod text;
pub mod command;
pub mod changelist;
pub mod info;
pub mod path;
pub mod filetree;
pub mod sync;
pub mod detail;
pub mod status;
pub mod state;
pub mod keys;
pub mod theme;
pub mod ui;
pub mod view;
pub mod laws;
