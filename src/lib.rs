//! Installer catalog: the installer model, interpretation of script
//! outcomes, the per-installer log store, the batch orchestrator and the
//! hot-reloaded registry of descriptor-driven installers.
pub mod batch;
pub mod catalog;
pub mod installer;
pub mod logger;
pub mod registry;
pub mod script;
pub mod watch;
