//! Verified core of a small manager for Minecraft, Velocity and Hytale game servers.

pub mod text;
pub mod envfile;
pub mod paths;
pub mod config;
pub mod password_fix;
pub mod duration;
pub mod notifications;
pub mod remote_backup;
pub mod cli;
pub mod rcon;
pub mod server;
