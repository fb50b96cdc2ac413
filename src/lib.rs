//! Ranked application search for a desktop launcher: application records,
//! a launch-frequency table, the ranking of fuzzy matches, the refresh
//! decisions of the application cache and the icon pipeline's pure parts.

pub mod cache;
pub mod collect;
pub mod frequency;
pub mod fuzzy;
pub mod icon;
pub mod links;
pub mod rank;
pub mod record;
pub mod text;
