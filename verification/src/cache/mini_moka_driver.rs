//! The engines of the `mini_moka` caches.

pub mod sync_cache;
pub mod unsync_cache;
