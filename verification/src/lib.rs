pub mod coord;
pub mod fmt;
pub mod input;
pub mod store;
pub mod urls;
