//! Host-side rules of the TB Widget taskbar plugin host: plugin registry
//! bookkeeping, plugin asset routing, proxy selection, log formatting and the
//! pure decisions behind the taskbar window integration.

pub mod text;
pub mod logging;
pub mod registry;
pub mod plugins;
pub mod ordering;
pub mod paths;
pub mod manifest;
pub mod transparency;
pub mod taskbar;
pub mod proxy_config;
pub mod assets;
pub mod access;
pub mod http;
pub mod placement;
pub mod metrics;
pub mod keyed;
pub mod migration;
pub mod startup;
