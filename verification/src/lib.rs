//! Permission-aware rendering of structured queries as SQL text.

pub mod error_code;
pub mod resp;
pub mod catchers;
pub mod permissions;
pub mod uid;
pub mod query_structure;
pub mod text;
pub mod permission_map;
pub mod sql_spec;
pub mod query_service;
pub mod config;
pub mod laws;
pub mod render_laws;


use vstd::prelude::*;
use crate::config::Config;
use crate::permission_map::{TablePermissionMap, grouped};
use crate::permissions::permissions_view;

verus! {

/// What starting the server takes: whether to set up logging, the port to
/// listen on, and the permission rules grouped by table.
pub struct ServerPlan {
    pub init_logger: bool,
    pub port: u16,
    pub table_permissions: TablePermissionMap,
}

/// Prepares the server for a configuration: logging where it asks for it, its
/// port, and its rules grouped by the lower-cased name of their table.
pub fn init_server_sync(config: Config) -> (plan: ServerPlan)
    ensures
        plan.init_logger == config.with_logger,
        plan.port == config.port,
        plan.table_permissions@ == grouped(permissions_view(config.permissions@)),
{
    let Config { with_logger, port, permissions } = config;
    ServerPlan {
        init_logger: with_logger,
        port,
        table_permissions: TablePermissionMap::from_permissions(permissions),
    }
}

} // verus!
