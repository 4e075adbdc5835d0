//! The decision engine of an HTTP client cache: whether a request is served from the store,
//! revalidated with the origin or passed through, the bookkeeping of `Warning` headers, and the
//! form in which responses are stored. Transport, storage and freshness computation stay with
//! the caller, which performs what the engine decides.

pub mod engine;
pub mod laws;
pub mod message;
pub mod store;
pub mod warning;

pub use engine::CacheMode;
pub use store::CACacheManager;
