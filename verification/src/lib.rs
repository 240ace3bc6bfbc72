//! Extraction of set records from catalogue detail pages, their accumulation
//! into a column-aligned dataset, the reference list of known sets, and the
//! discount metrics by which sets are ranked.

pub mod command;
pub mod decimal;
pub mod fields;
pub mod html;
pub mod metrics;
pub mod page;
pub mod pattern;
pub mod query;
pub mod scraper_utils;
pub mod set_data;
pub mod set_list;
pub mod text;

pub use crate::command::Leget;
pub use crate::query::Query;
pub use crate::scraper_utils::throttle;
pub use crate::set_data::SetData;
