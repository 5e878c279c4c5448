//! Verified core of the prest host: the multi-version row snapshots behind
//! its storage, key layouts, transaction locks, authentication rules,
//! analytics bookkeeping and the small decision procedures of the admin
//! panel, proxy and runtime.

pub mod admin;
pub mod analytics;
pub mod assets;
pub mod auth;
pub mod config;
pub mod deploy;
pub mod error;
pub mod host;
pub mod index_scan;
pub mod keys;
pub mod lock;
pub mod logs;
pub mod proxy;
pub mod roles;
pub mod runtime;
pub mod snapshot;
pub mod storage;
pub mod system;
pub mod text;
