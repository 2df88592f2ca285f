//! Features of the parametric model: the kind-specific data of each feature
//! and the dependency edges between features.
//!
//! Real-valued fields (distances, angles, directions) are carried as
//! IEEE-754 bit patterns (`f64::to_bits`); the model only stores them.

use vstd::prelude::*;

use crate::ids::{EntityId, FeatureId, ParameterId};
use crate::sketch::Sketch;

verus! {

/// Extrude direction mode.
#[derive(Debug, Clone, Copy)]
pub enum ExtrudeDirection {
    /// One-sided (positive direction only).
    OneSide,
    /// Symmetric about the sketch plane.
    Midplane,
    /// Different distances on each side (`f64` bit patterns).
    TwoSides { dist1: u64, dist2: u64 },
}

impl Default for ExtrudeDirection {
    fn default() -> (d: Self)
        ensures
            d == ExtrudeDirection::OneSide,
    {
        ExtrudeDirection::OneSide
    }
}

/// Definition of a sketch/work plane in 3D space.
#[derive(Debug, PartialEq, Eq)]
pub enum PlaneDefinition {
    /// Default: XY plane (Z=0).
    XY,
    /// YZ plane (X=0).
    YZ,
    /// ZX plane (Y=0).
    ZX,
    /// Offset from another plane by a distance (`f64` bit pattern) along its
    /// normal.
    Offset { base: Box<PlaneDefinition>, distance: u64 },
}

impl Clone for PlaneDefinition {
    fn clone(&self) -> (r: Self)
        ensures
            r == *self,
        decreases self,
    {
        match self {
            PlaneDefinition::XY => PlaneDefinition::XY,
            PlaneDefinition::YZ => PlaneDefinition::YZ,
            PlaneDefinition::ZX => PlaneDefinition::ZX,
            PlaneDefinition::Offset { base, distance } => {
                let b: PlaneDefinition = (**base).clone();
                PlaneDefinition::Offset { base: Box::new(b), distance: *distance }
            },
        }
    }
}

impl Default for PlaneDefinition {
    fn default() -> (p: Self)
        ensures
            p == PlaneDefinition::XY,
    {
        PlaneDefinition::XY
    }
}

/// Boolean operation type.
#[derive(Debug, Clone, Copy, PartialEq, Eq, Structural)]
pub enum BoolOp {
    Union,
    Subtract,
    Intersect,
}

/// A feature defined by a plugin rather than built-in.
#[derive(Debug, Clone)]
pub struct CustomFeatureData {
    /// The plugin that owns this feature type.
    pub plugin_id: String,
    /// The specific generator within the plugin.
    pub generator_id: String,
    /// Parameters used to generate this feature, by name (`f64` bit
    /// patterns). No name occurs twice.
    pub params: Vec<(String, u64)>,
}

/// Kind-specific data of a feature. Real-valued fields are `f64` bit
/// patterns.
#[derive(Debug, Clone)]
pub enum FeatureKind {
    Sketch { sketch: Sketch, plane: PlaneDefinition },
    Extrude {
        sketch_id: FeatureId,
        distance: ParameterId,
        direction: ExtrudeDirection,
        draft_angle_deg: u64,
        /// Optional region indices to extrude. `None` extrudes all regions.
        selected_regions: Option<Vec<usize>>,
    },
    Revolve {
        sketch_id: FeatureId,
        angle: ParameterId,
        /// Optional axis line entity in the sketch. If None, defaults to Y axis.
        axis_entity_id: Option<EntityId>,
    },
    CustomSketch { sketch: Sketch, custom: CustomFeatureData, plane: PlaneDefinition },
    CustomSolid { sketch_id: FeatureId, distance: ParameterId, custom: CustomFeatureData },
    /// Blend edges with a radius. An empty edge list means "all sharp edges".
    Fillet { target_id: FeatureId, radius: ParameterId, edges: Vec<(u32, u32)> },
    /// Bevel edges at a 45° angle. An empty edge list means "all sharp edges".
    Chamfer { target_id: FeatureId, distance: ParameterId, edges: Vec<(u32, u32)> },
    /// Linear pattern: repeat a solid along a direction.
    LinearPattern {
        target_id: FeatureId,
        dir_x: u64,
        dir_y: u64,
        dir_z: u64,
        /// Number of instances (including original).
        count: u32,
        /// Spacing between instances.
        spacing: u64,
    },
    /// Circular pattern: repeat a solid around an axis.
    CircularPattern {
        target_id: FeatureId,
        axis_x: u64,
        axis_y: u64,
        axis_z: u64,
        axis_dx: u64,
        axis_dy: u64,
        axis_dz: u64,
        count: u32,
        total_angle_deg: u64,
    },
    /// Mirror a solid across a plane.
    Mirror {
        target_id: FeatureId,
        plane_nx: u64,
        plane_ny: u64,
        plane_nz: u64,
        plane_px: u64,
        plane_py: u64,
        plane_pz: u64,
    },
    /// Sweep a profile sketch along a path sketch.
    Sweep { profile_sketch_id: FeatureId, path_sketch_id: FeatureId },
    /// Hollow a solid with a given wall thickness.
    Shell { target_id: FeatureId, thickness: ParameterId },
    Boolean { op: BoolOp, target_a: FeatureId, target_b: FeatureId },
}

/// Common metadata shared by every feature, regardless of kind.
#[derive(Debug, Clone)]
pub struct Feature {
    pub id: FeatureId,
    pub name: String,
    /// When true, the feature is skipped during regeneration.
    pub suppressed: bool,
    /// Optional per-feature color as a hex string (e.g. "#ff8800").
    pub color: Option<String>,
    /// The feature this one is nested under in the feature tree, if any.
    pub parent_id: Option<FeatureId>,
    /// Kind-specific data (sketch, extrude, fillet, ...).
    pub kind: FeatureKind,
}

/// The features a feature of kind `k` directly depends on, in the order
/// regeneration consults them. A plugin solid is produced from its own
/// parameters and depends on nothing; sketches depend on nothing.
pub open spec fn kind_dependencies(k: FeatureKind) -> Seq<FeatureId> {
    match k {
        FeatureKind::Extrude { sketch_id, .. } => seq![sketch_id],
        FeatureKind::Revolve { sketch_id, .. } => seq![sketch_id],
        FeatureKind::CustomSolid { .. } => seq![],
        FeatureKind::Fillet { target_id, .. } => seq![target_id],
        FeatureKind::Chamfer { target_id, .. } => seq![target_id],
        FeatureKind::Shell { target_id, .. } => seq![target_id],
        FeatureKind::LinearPattern { target_id, .. } => seq![target_id],
        FeatureKind::CircularPattern { target_id, .. } => seq![target_id],
        FeatureKind::Mirror { target_id, .. } => seq![target_id],
        FeatureKind::Sweep { profile_sketch_id, path_sketch_id } => seq![
            profile_sketch_id,
            path_sketch_id,
        ],
        FeatureKind::Boolean { target_a, target_b, .. } => seq![target_a, target_b],
        FeatureKind::Sketch { .. } => seq![],
        FeatureKind::CustomSketch { .. } => seq![],
    }
}

/// Whether a kind carries a sketch (and can be the active sketch).
pub open spec fn kind_is_sketch(k: FeatureKind) -> bool {
    k is Sketch || k is CustomSketch
}

/// Short type tag of a kind, for UI and icons.
pub open spec fn kind_type_tag(k: FeatureKind) -> Seq<char> {
    match k {
        FeatureKind::Sketch { .. } => "Sketch"@,
        FeatureKind::Extrude { .. } => "Extrude"@,
        FeatureKind::Revolve { .. } => "Revolve"@,
        FeatureKind::CustomSketch { .. } => "Custom"@,
        FeatureKind::CustomSolid { .. } => "CustomSolid"@,
        FeatureKind::Fillet { .. } => "Fillet"@,
        FeatureKind::Chamfer { .. } => "Chamfer"@,
        FeatureKind::LinearPattern { .. } => "LinearPattern"@,
        FeatureKind::CircularPattern { .. } => "CircularPattern"@,
        FeatureKind::Mirror { .. } => "Mirror"@,
        FeatureKind::Sweep { .. } => "Sweep"@,
        FeatureKind::Shell { .. } => "Shell"@,
        FeatureKind::Boolean { .. } => "Boolean"@,
    }
}

impl Feature {
    /// A new, unsuppressed, uncolored top-level feature.
    pub fn new(id: FeatureId, name: &str, kind: FeatureKind) -> (f: Self)
        ensures
            f.id == id,
            f.name@ == name@,
            !f.suppressed,
            f.color is None,
            f.parent_id is None,
            f.kind == kind,
    {
        Feature { id, name: name.to_owned(), suppressed: false, color: None, parent_id: None, kind }
    }

    pub fn id(&self) -> (r: FeatureId)
        ensures
            r == self.id,
    {
        self.id
    }

    pub fn name(&self) -> (r: &str)
        ensures
            r@ == self.name@,
    {
        self.name.as_str()
    }

    pub fn set_name(&mut self, new_name: &str)
        ensures
            final(self).name@ == new_name@,
            final(self).id == old(self).id,
            final(self).suppressed == old(self).suppressed,
            final(self).color == old(self).color,
            final(self).parent_id == old(self).parent_id,
            final(self).kind == old(self).kind,
    {
        self.name = new_name.to_owned();
    }

    /// Whether this feature is sketch-based (can be used as active sketch).
    pub fn is_sketch(&self) -> (r: bool)
        ensures
            r == kind_is_sketch(self.kind),
    {
        match &self.kind {
            FeatureKind::Sketch { .. } => true,
            FeatureKind::CustomSketch { .. } => true,
            _ => false,
        }
    }

    /// The sketch data if this feature contains a sketch.
    pub fn sketch(&self) -> (r: Option<&Sketch>)
        ensures
            match self.kind {
                FeatureKind::Sketch { sketch, .. } => r == Some(&sketch),
                FeatureKind::CustomSketch { sketch, .. } => r == Some(&sketch),
                _ => r is None,
            },
    {
        match &self.kind {
            FeatureKind::Sketch { sketch, .. } => Some(sketch),
            FeatureKind::CustomSketch { sketch, .. } => Some(sketch),
            _ => None,
        }
    }

    /// Mutable sketch data if this feature contains a sketch.
    pub fn sketch_mut(&mut self) -> (r: Option<&mut Sketch>)
        ensures
            match old(self).kind {
                FeatureKind::Sketch { sketch, plane } => r matches Some(s) && *s == sketch
                    && final(self).kind == (FeatureKind::Sketch { sketch: *final(s), plane }),
                FeatureKind::CustomSketch { sketch, custom, plane } => r matches Some(s) && *s
                    == sketch && final(self).kind == (FeatureKind::CustomSketch {
                    sketch: *final(s),
                    custom,
                    plane,
                }),
                _ => r is None && final(self).kind == old(self).kind,
            },
            final(self).id == old(self).id,
            final(self).name == old(self).name,
            final(self).suppressed == old(self).suppressed,
            final(self).color == old(self).color,
            final(self).parent_id == old(self).parent_id,
    {
        match &mut self.kind {
            FeatureKind::Sketch { sketch, .. } => Some(sketch),
            FeatureKind::CustomSketch { sketch, .. } => Some(sketch),
            _ => None,
        }
    }

    /// Mutable plane definition if this feature is a sketch.
    pub fn plane_mut(&mut self) -> (r: Option<&mut PlaneDefinition>)
        ensures
            match old(self).kind {
                FeatureKind::Sketch { sketch, plane } => r matches Some(p) && *p == plane
                    && final(self).kind == (FeatureKind::Sketch { sketch, plane: *final(p) }),
                FeatureKind::CustomSketch { sketch, custom, plane } => r matches Some(p) && *p
                    == plane && final(self).kind == (FeatureKind::CustomSketch {
                    sketch,
                    custom,
                    plane: *final(p),
                }),
                _ => r is None && final(self).kind == old(self).kind,
            },
            final(self).id == old(self).id,
            final(self).name == old(self).name,
            final(self).suppressed == old(self).suppressed,
            final(self).color == old(self).color,
            final(self).parent_id == old(self).parent_id,
    {
        match &mut self.kind {
            FeatureKind::Sketch { plane, .. } => Some(plane),
            FeatureKind::CustomSketch { plane, .. } => Some(plane),
            _ => None,
        }
    }

    /// The plane definition if this feature is a sketch.
    pub fn plane(&self) -> (r: Option<&PlaneDefinition>)
        ensures
            match self.kind {
                FeatureKind::Sketch { plane, .. } => r == Some(&plane),
                FeatureKind::CustomSketch { plane, .. } => r == Some(&plane),
                _ => r is None,
            },
    {
        match &self.kind {
            FeatureKind::Sketch { plane, .. } => Some(plane),
            FeatureKind::CustomSketch { plane, .. } => Some(plane),
            _ => None,
        }
    }

    /// Short type tag for UI/icons (e.g. "Sketch", "Extrude", "Fillet").
    pub fn type_tag(&self) -> (r: &'static str)
        ensures
            r@ == kind_type_tag(self.kind),
    {
        match &self.kind {
            FeatureKind::Sketch { .. } => "Sketch",
            FeatureKind::Extrude { .. } => "Extrude",
            FeatureKind::Revolve { .. } => "Revolve",
            FeatureKind::CustomSketch { .. } => "Custom",
            FeatureKind::CustomSolid { .. } => "CustomSolid",
            FeatureKind::Fillet { .. } => "Fillet",
            FeatureKind::Chamfer { .. } => "Chamfer",
            FeatureKind::LinearPattern { .. } => "LinearPattern",
            FeatureKind::CircularPattern { .. } => "CircularPattern",
            FeatureKind::Mirror { .. } => "Mirror",
            FeatureKind::Sweep { .. } => "Sweep",
            FeatureKind::Shell { .. } => "Shell",
            FeatureKind::Boolean { .. } => "Boolean",
        }
    }

    /// Plugin identifier when this is a custom (plugin-defined) feature.
    pub fn custom_plugin(&self) -> (r: Option<&str>)
        ensures
            match self.kind {
                FeatureKind::CustomSketch { custom, .. } => r matches Some(s) && s@
                    == custom.plugin_id@,
                FeatureKind::CustomSolid { custom, .. } => r matches Some(s) && s@
                    == custom.plugin_id@,
                _ => r is None,
            },
    {
        match &self.kind {
            FeatureKind::CustomSketch { custom, .. } => Some(custom.plugin_id.as_str()),
            FeatureKind::CustomSolid { custom, .. } => Some(custom.plugin_id.as_str()),
            _ => None,
        }
    }

    /// Feature IDs this feature directly depends on (used for deletion
    /// safety and regeneration ordering).
    pub fn dependencies(&self) -> (r: Vec<FeatureId>)
        ensures
            r@ == kind_dependencies(self.kind),
    {
        dependency_list(&self.kind)
    }
}

/// The features a feature of kind `k` directly depends on.
pub(crate) fn dependency_list(k: &FeatureKind) -> (r: Vec<FeatureId>)
    ensures
        r@ == kind_dependencies(*k),
{
    let r = match k {
        FeatureKind::Extrude { sketch_id, .. } => vec![*sketch_id],
        FeatureKind::Revolve { sketch_id, .. } => vec![*sketch_id],
        FeatureKind::CustomSolid { .. } => Vec::new(),
        FeatureKind::Fillet { target_id, .. } => vec![*target_id],
        FeatureKind::Chamfer { target_id, .. } => vec![*target_id],
        FeatureKind::Shell { target_id, .. } => vec![*target_id],
        FeatureKind::LinearPattern { target_id, .. } => vec![*target_id],
        FeatureKind::CircularPattern { target_id, .. } => vec![*target_id],
        FeatureKind::Mirror { target_id, .. } => vec![*target_id],
        FeatureKind::Sweep { profile_sketch_id, path_sketch_id } => vec![
            *profile_sketch_id,
            *path_sketch_id,
        ],
        FeatureKind::Boolean { target_a, target_b, .. } => vec![*target_a, *target_b],
        FeatureKind::Sketch { .. } => Vec::new(),
        FeatureKind::CustomSketch { .. } => Vec::new(),
    };
    assert(r@ =~= kind_dependencies(*k));
    r
}

} // verus!
