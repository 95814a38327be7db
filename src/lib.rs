//! Component lifecycle and capability engine of a server that hosts
//! WebAssembly components as tools: provisioning manifests, capability
//! policies, the tool registry, the hook pipeline and the on-disk artifact
//! layout.

pub mod component_registry;
pub mod component_storage;
pub mod config;
pub mod env_file;
pub mod hooks;
pub mod manifest;
pub mod middleware;
pub mod permission_synthesis;
pub mod policy;
pub mod provisioning_controller;
pub mod reference;
pub mod server;
pub mod text;
pub mod tools;
pub mod utils;
