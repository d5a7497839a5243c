pub mod catalog;
pub mod errors;
pub mod installer;
pub mod paths;
pub mod plan;
pub mod selector;
