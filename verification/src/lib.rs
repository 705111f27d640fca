//! Core logic of a multi-tenant parish-management backend: role-based
//! access checks, parish scope resolution, the permission overlay, the
//! offline-sync reconciler and the identity layer, with their contracts.

pub mod auth;
pub mod cluster;
pub mod errors;
pub mod import;
pub mod member;
pub mod permission;
pub mod rbac;
pub mod roles;
pub mod store;
pub mod sync;
pub mod text;
pub mod transaction;
pub mod upload;
