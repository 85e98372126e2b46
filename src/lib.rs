//! Template import and resolution: extension requirements declared by a
//! template, the minimal settings document they call for, the helpers their
//! extensions provide, and the render that puts the three together.

pub mod engine;
pub mod extract;
pub mod guard;
pub mod helpers;
pub mod importer;
pub mod json;
pub mod render;
pub mod repo;
pub mod requirement;
pub mod scan;
pub mod settings;
