pub mod mime;
pub mod encoding;
pub mod steam_command;
