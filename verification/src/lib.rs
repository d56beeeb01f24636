pub mod calendar;
pub mod json;
pub mod ordering;
pub mod provision;
pub mod registry;
pub mod sorted_map;
pub mod text;
pub mod usd;
