//! Builds a cyclic slideshow description for a directory of wallpapers: a
//! timed sequence of static-display and transition entries, rendered into an
//! XML document with a custom numeric formatting rule.

pub mod config;
pub mod decimal;
pub mod digits;
pub mod filters;
pub mod schedule;

pub use config::Config;
pub use config::ConfigError;
pub use decimal::Decimal;
pub use schedule::IndexContext;
pub use schedule::StartTime;
pub use schedule::render;
pub use filters::FilterError;
pub use filters::TemplateValue;
pub use filters::with_zero;
