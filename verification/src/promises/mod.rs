//! What callers can rely on, told in times, numbers and texts alone.
//!
//! Contracts speak of steps and of what is remembered of a key. The laws here say what these come
//! to: when a window is over, which requests count against a limit, what stands between two commas.
//! Where they speak of a value they say what it is equal to, or between what it lies, and where
//! they speak of requests they compare what was answered with when it was asked.

pub mod buckets;
pub mod calls;
pub mod fixed_windows;
pub mod redis;
pub mod replies;
pub mod requests;
pub mod results;
pub mod retention;
pub mod settings;
pub mod sliding_windows;
pub mod stores;
pub mod texts;
