//! The rules of a switcher for rEFInd: where its variables lie, how the system that
//! boots next is chosen, and how the app around it behaves.
pub mod autostart;
pub mod command;
pub mod desktop;
pub mod digest;
pub mod login_item;
pub mod menu;
pub mod mount;
pub mod mountinfo;
pub mod number;
pub mod partitions;
pub mod paths;
pub mod restart;
pub mod scan;
pub mod settings;
pub mod status;
pub mod switch;
pub mod text;
pub mod unix_path;
pub mod users;
pub mod variables;
pub mod window;
