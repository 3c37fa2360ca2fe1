//! Parametric solid modelling, without the kernel.
//!
//! A part is a [`document::Document`]: an ordered history of features described
//! as data. The library holds every rule about that data: how features refer to
//! one another, how a history is replayed against a geometry kernel and what is
//! reused between replays, how a sketch's segments close into a profile, how the
//! viewport's gestures become edits, and how all of it is undone.
//!
//! Coordinates are carried as [`scalar::Scalar`], the bit pattern of a binary64
//! number. The library compares and moves such numbers; computing with them is
//! left to the program around it.
//!
//! What holds of a single function is its contract. What holds of several
//! together is stated by the proof functions whose names begin with `law_`.

pub mod backend;
pub mod bounds;
pub mod build_graph;
pub mod cache;
pub mod call_laws;
pub mod descent;
pub mod document;
pub mod drag_laws;
pub mod drags;
pub mod edit_laws;
pub mod features;
pub mod graph_laws;
pub mod history;
pub mod history_laws;
pub mod kernel;
pub mod mesh;
pub mod modeler;
pub mod modeler_laws;
pub mod operation_laws;
pub mod panel;
pub mod parts;
pub mod picking;
pub mod project;
pub mod rebuild_laws;
pub mod regen;
pub mod regen_laws;
pub mod scalar;
pub mod scalar_laws;
pub mod selection;
pub mod session;
pub mod sketch;
pub mod sketch2d;
pub mod sketch_laws;
pub mod solver;
pub mod solver_laws;
pub mod text;
pub mod theme;
pub mod units;
pub mod viewport;
pub mod zeros;

pub use backend::GeometryBackend;
pub use build_graph::{BuildGraph, BuildGraphRow};
pub use cache::RegenCache;
pub use document::Document;
pub use features::{
    BooleanOp, EdgeAnchor, FaceAnchor, Feature, FeatureId, FeatureKind, SweepPath,
};
pub use history::{DependencyError, History};
pub use kernel::KernelError;
pub use modeler::Modeler;
pub use regen::{regenerate, RegenError, Regeneration};
pub use scalar::{DVec3, Scalar};
pub use selection::{Pick, Selection};
pub use sketch::{
    CircleId, Constraint, LineId, PointId, Profile, ProfileElem, SketchBezier, SketchCircle,
    SketchLine, SketchPlane, SketchPoint,
};
pub use sketch2d::Sketch2d;
pub use units::LengthUnit;
