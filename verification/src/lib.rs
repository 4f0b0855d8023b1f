//! An embeddable interpreter for a declarative bullet-pattern description
//! language: an immutable, arena-owned pattern document addressed by stable
//! integer handles, and a resumable per-instance execution engine that walks
//! that tree one frame at a time.

pub mod errors;
pub mod expr;
pub mod num;
pub mod runner;
pub mod tree;

pub use runner::AppRunner;
pub use runner::Runner;
pub use runner::State;
pub use tree::BulletML;
