//! Catalog, install-state, release and Agent API logic of the Neko Legends
//! Control Center, stated and proved with Verus.

pub mod text;
pub mod host;
pub mod order;
pub mod model;
pub mod settings;
pub mod catalog;
pub mod install;
pub mod files;
pub mod release;
pub mod download;
pub mod agent_api;
pub mod layout;
pub mod update;
pub mod uninstall;
pub mod agent_control;
pub mod lock;
pub mod provider;
pub mod laws;
