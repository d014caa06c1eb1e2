pub mod filters;
pub mod structs;
