//! Log-domain numeric engine for incremental-progress growth projection.
//!
//! The core type is a signed number stored as (sign, base-10 logarithm of
//! magnitude), so that values far beyond any machine word (10^400 and more)
//! can be multiplied, raised to powers and compared exactly in log space.
//! The log magnitude itself is kept as a fixed-point integer with nine
//! decimal places, which makes every operation a pure integer computation.
//! On top of the number sit closed-form cost and value growth curves, a
//! purchasable variable binding the two, and a simulation driver that
//! advances a resource amount through an injected evaluation capability.

pub mod fixedlog;
pub mod lognum;
pub mod text;
pub mod cost;
pub mod value;
pub mod variable;
pub mod currency;
pub mod errors;
pub mod settings;
pub mod config;
pub mod var_buy;
pub mod result;
pub mod sim;
pub mod laws;
