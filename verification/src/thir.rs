//! The typed tree of a function body: as a frontend hands it over, and as
//! the analyzer walks it.

pub mod arena;
pub mod reduce;
pub mod rthir;
