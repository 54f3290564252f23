//! Scaffolding for layered web services: name forms, template rendering,
//! generation plans, and the entry-point weaver that patches the program's
//! composition root in place.
pub mod text;
pub mod context;
pub mod generator;
pub mod weaver;
pub mod laws;
