//! Synchronisation of image assets with a remote asset host: the persisted
//! manifest, the decisions of the two remote-client schemes, the upload
//! backends and the reconciliation of packed uploads into a cache map.
pub mod cache_map;
pub mod manifest;
pub mod resize;
pub mod roblox_api;
pub mod sync_backend;
pub mod text;
