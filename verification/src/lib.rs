//! EchoCAD core model: the parametric document, its feature tree and
//! sketches, the structural side of the constraint solver, undo history,
//! project-format migration and the small encoders used by the exporters.

pub mod base64;
pub mod brep;
pub mod document;
pub mod edit;
pub mod feature;
pub mod export;
pub mod ids;
pub mod mesh;
pub mod node;
pub mod parameter;
pub mod plugin;
pub mod profile;
pub mod project;
pub mod regen;
pub mod registry;
pub mod sketch;
pub mod solver;
pub mod text;
pub mod undo;

pub use ids::{EntityId, FeatureId, ParameterId};
