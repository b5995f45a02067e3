//! Velocity and Hytale servers: stopped with a command typed into their
//! `screen` session.

use crate::config::{BackupConfig, GlobalConfig, ServerConfig, UnknownJavaVersion};
use super::manager::{manager_result, ServerManager};
use vstd::prelude::*;

verus! {

/// A server that is stopped through its stop command.
pub struct GenericServer {
    pub manager: ServerManager,
}

impl GenericServer {
    pub fn new(
        server_id: String,
        config: ServerConfig,
        global: &GlobalConfig,
        backup: &BackupConfig,
        java_environments: &Vec<(String, String)>,
    ) -> (r: Result<Self, UnknownJavaVersion>)
        ensures
            manager_result(
                match r {
                    Ok(s) => Ok(s.manager),
                    Err(e) => Err(e),
                },
                server_id@,
                config,
                *global,
                *backup,
                java_environments@,
            ),
    {
        match ServerManager::new(server_id, config, global, backup, java_environments) {
            Ok(manager) => Ok(GenericServer { manager }),
            Err(e) => Err(e),
        }
    }
}

} // verus!
