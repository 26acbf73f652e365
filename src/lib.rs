//! A small object-relational mapping core: entity descriptors, filter
//! arguments and the SQL statements built from them, with the values to bind
//! in placeholder order.
pub mod laws;
pub mod model;
pub mod outcome;
pub mod sql;
pub mod text;
