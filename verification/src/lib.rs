//! Verified core of a catalog service for classical-music metadata.
//!
//! The crate models the service's persistent store as the in-memory
//! [`store::Catalog`] and verifies the logic that the service runs against
//! it: credential handling, session-based authorization with a bootstrap
//! admin, entity creation with derived image/file paths, aggregate view
//! assembly over the many-to-many edge tables, and free-text search.
use vstd::prelude::*;

pub mod addmusic;
pub mod auth;
pub mod crypto;
pub mod get;
pub mod hexstr;
pub mod insert;
pub mod laws;
pub mod models;
pub mod search;
pub mod store;
pub mod strutil;

verus! {

/// Generic response to denote whether an operation was successful.
pub struct Response<T> {
    pub success: bool,
    pub message: T,
}

/// A request that identifies one entity by its id.
pub struct IdRequest {
    pub id: i32,
}

} // verus!
