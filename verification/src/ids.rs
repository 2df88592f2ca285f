//! Identifiers used throughout the document model.

use vstd::prelude::*;

verus! {

/// Identifier of a feature in the feature tree.
#[derive(Debug, Clone, Copy, PartialEq, Eq, Hash, Structural)]
pub struct FeatureId(pub u64);

/// Identifier of a named document parameter.
#[derive(Debug, Clone, Copy, PartialEq, Eq, Hash, Structural)]
pub struct ParameterId(pub u64);

/// Identifier of an entity inside a sketch.
#[derive(Debug, Clone, Copy, PartialEq, Eq, Hash, Structural)]
pub struct EntityId(pub u64);

} // verus!
