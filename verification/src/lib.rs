pub mod chad;
pub mod config;
pub mod crawler;
pub mod dom;
pub mod error;
pub mod metrics;
pub mod selector;
pub mod spider;
pub mod text;

pub use config::{ConfigLoader, OutputConfig, ResolveStep, SpiderConfig};
pub use crawler::{CrawlerEngine, CrawlerState};
pub use error::Error;
pub use metrics::{MetricsCollector, MetricsSnapshot};
pub use selector::CssSelector;
pub use spider::{ExtractionRule, ExtractionType, GenericSpider, Item};
