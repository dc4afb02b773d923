//! Search for deployment salts whose derived contract address satisfies a
//! reward predicate: configuration checking, the reward evaluator, the
//! candidate salt layout, address derivation, the result file format and the
//! batch search steps.

pub mod hexdigits;
pub mod reward;
pub mod matcher;
pub mod config;
pub mod salt;
pub mod address;
pub mod finding;
pub mod search;

pub use config::{Config, CreateVariant, SaltVariant};
pub use reward::RewardVariant;
