//! Two ways to guarantee that a list has a first element: check a general
//! list at run time, or build a list type that cannot be empty.

pub mod configuration_directories;
pub mod non_empty;
pub mod slice;
