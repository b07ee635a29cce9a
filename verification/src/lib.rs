//! # Armature rate limiting
//!
//! Rate limiting with several algorithms and stores, verified with Verus.
//!
//! - **Algorithms**: token bucket, sliding window log and fixed window ([`algorithms`]).
//! - **Stores**: in memory for a single instance, and Redis for several ([`stores`]).
//! - **Keys**: by address, user, API key or header ([`extractor`]).
//! - **Headers**: `X-RateLimit-Limit`, `X-RateLimit-Remaining`, `X-RateLimit-Reset` and
//!   `Retry-After` ([`error`]).
//! - **Middleware**: which key a request has, whether it is limited, and what the client is
//!   answered ([`middleware`]).
//!
//! A limiter is built with [`RateLimiterBuilder`] and asked with [`RateLimiter::check`]:
//!
//! ```ignore
//! let mut limiter = RateLimiterBuilder::new()
//!     .fixed_window(100, Duration::from_secs(60))
//!     .build::<Floats>()?;
//! let result = limiter.check("user_123")?;
//! if result.allowed {
//!     println!("{} remaining", result.remaining);
//! }
//! ```
//!
//! # What contracts speak of
//!
//! Keys are sequences of characters, and what is remembered of them is a map. Each algorithm is a
//! function, or a relation, from what is remembered of a key to what is remembered after a request,
//! with the verdict on it; limiters and stores apply it to the key of a request.
//!
//! Functions that read a clock say what they return for a reading of that clock, and nothing of
//! what the reading is. Beside each stands a function that takes the time as an argument.
//!
//! Token levels and refill rates are binary floating-point numbers, held by their bit patterns.
//! Arithmetic on them is done by an implementation of [`tokens::TokenArithmetic`], and addresses
//! are read by one of [`request::AddressFormat`]; contracts speak of the values that these
//! returned.

pub mod algorithms;
pub mod config;
pub mod error;
pub mod extractor;
pub mod json;
pub mod limiter;
pub mod middleware;
pub mod promises;
pub mod request;
pub mod stores;
pub mod table;
pub mod text;
pub mod time;
pub mod tokens;

pub use algorithms::{Algorithm, RateLimitAlgorithm};
pub use config::{RateLimitConfig, RateLimiterBuilder};
pub use error::{RateLimitError, RateLimitResult};
pub use extractor::KeyExtractor;
pub use limiter::{RateLimitCheckResult, RateLimiter};
pub use middleware::{RateLimitMiddleware, UnkeyedRequestPolicy};
pub use stores::{MemoryStore, RateLimitStore, RedisStore, StoreType};
