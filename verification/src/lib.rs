//! A churn-matrix engine over a catalog of mobile applications and the
//! software development kits (SDKs) they embed.
//!
//! The engine answers, for a pair of column selectors `(from, to)`, which
//! apps currently use an SDK matching `to` and previously used — and have
//! since dropped — an SDK matching `from`, and assembles those answers into
//! a full cross-tabulation over every ordered pair drawn from a list of
//! selectors.  Store access and presentation live outside this crate; the
//! engine works on an immutable in-memory snapshot of the catalog.

pub mod catalog;
pub mod laws;
pub mod matrix;
pub mod model;
