pub mod commands;
pub mod app_dirs;
pub mod service;
pub mod metadata;
pub mod recovery;
pub mod adapters;
pub mod status;
pub mod doctor;
pub mod init;
pub mod uninstall;
pub mod entry;
