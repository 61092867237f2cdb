//! Feature toggles resolved from configuration you own.

pub mod cli;
pub mod config;
pub mod context;
pub mod error;
pub mod laws;
pub mod parsing;
pub mod providers;
pub mod runtime;
pub mod strategies;
pub mod text;

pub use context::FtrIoContextAccessor;
pub use error::{ToggleError, ToggleParserBuilderError};
pub use parsing::{AppSettingsToggleParser, OverrideResolver, StrategyToggleParser, ToggleParser};
pub use providers::{CompositeToggleParser, EnvironmentVariableToggleParser, ToggleValueProvider};
pub use runtime::{
    try_execute_if_toggle_on, ToggleBuffer, ToggleParserBuilder, ToggleParserProvider,
};
pub use strategies::compute_bucket;
