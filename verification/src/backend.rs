//! What a geometry kernel offers.
//!
//! The history says what to build; a [`GeometryBackend`] knows how. The replay in
//! [`crate::regen`] is stated over the calls it makes: a backend's `log` is the
//! sequence of operations asked of it so far, each with what came back. Nothing
//! is assumed of the results.

use crate::features::{BooleanOp, EdgeAnchor, FaceAnchor};
use crate::scalar::{DVec3, Scalar};
use crate::sketch::{Profile, ProfileElem, SketchPlane};
use vstd::prelude::*;

verus! {

/// One operation, with its arguments.
#[allow(inconsistent_fields)]
pub enum Call<B> {
    MakeBox { size: DVec3 },
    MakeCylinder { radius: Scalar, height: Scalar },
    MakeSphere { radius: Scalar },
    Sketch { plane: SketchPlane, profile: Profile },
    SketchLoop { plane: SketchPlane, points: Seq<[Scalar; 2]> },
    SketchProfile { plane: SketchPlane, elements: Seq<ProfileElem> },
    Extrude { profile: B, distance: Scalar },
    Revolve { profile: B, axis_point: DVec3, angle: Scalar },
    Translate { body: B, offset: DVec3 },
    Boolean { op: BooleanOp, target: B, tool: B },
    FilletAll { body: B, radius: Scalar },
    FilletEdges { body: B, anchors: Seq<EdgeAnchor>, radius: Scalar },
    PushPull { body: B, anchor: FaceAnchor, distance: Scalar },
    Rotate { body: B, center: DVec3, axis: DVec3, angle: Scalar },
    Scale { body: B, factors: DVec3, anchor: DVec3 },
    Mirror { body: B, origin: DVec3, normal: DVec3 },
    Compound { members: Seq<B> },
    Sweep { profile: B, plane: SketchPlane, path: Seq<ProfileElem> },
}

/// One entry of a backend's log.
pub struct Step<B, E> {
    pub call: Call<B>,
    pub result: Result<B, E>,
}

/// The bodies a list of references stands for.
pub open spec fn pointees<B>(members: Seq<&B>) -> Seq<B> {
    Seq::new(members.len(), |i: int| *members[i])
}

/// A geometry engine. Operations take bodies by reference and return a new one.
pub trait GeometryBackend {
    /// A body this backend produces.
    type Body;

    /// Why an operation failed.
    type Error;

    /// The operations asked for so far and their results. This is for contracts
    /// only: a backend that is itself verified says what its log is, and to any
    /// other there is nothing to add.
    closed spec fn log(&self) -> Seq<Step<Self::Body, Self::Error>> {
        arbitrary()
    }

    fn make_box(&mut self, size: DVec3) -> (r: Result<Self::Body, Self::Error>)
        ensures
            final(self).log() == old(self).log().push(
                Step { call: Call::MakeBox { size }, result: r },
            ),
    ;

    fn make_cylinder(&mut self, radius: Scalar, height: Scalar) -> (r: Result<
        Self::Body,
        Self::Error,
    >)
        ensures
            final(self).log() == old(self).log().push(
                Step { call: Call::MakeCylinder { radius, height }, result: r },
            ),
    ;

    fn make_sphere(&mut self, radius: Scalar) -> (r: Result<Self::Body, Self::Error>)
        ensures
            final(self).log() == old(self).log().push(
                Step { call: Call::MakeSphere { radius }, result: r },
            ),
    ;

    /// A planar face from a closed profile on a plane.
    fn sketch(&mut self, plane: SketchPlane, profile: Profile) -> (r: Result<
        Self::Body,
        Self::Error,
    >)
        ensures
            final(self).log() == old(self).log().push(
                Step { call: Call::Sketch { plane, profile }, result: r },
            ),
    ;

    /// A planar face from a closed loop of places, in order.
    fn sketch_loop(&mut self, plane: SketchPlane, points: &[[Scalar; 2]]) -> (r: Result<
        Self::Body,
        Self::Error,
    >)
        ensures
            final(self).log() == old(self).log().push(
                Step { call: Call::SketchLoop { plane, points: points@ }, result: r },
            ),
    ;

    /// A planar face from a closed boundary of straight and cubic segments.
    fn sketch_profile(&mut self, plane: SketchPlane, elements: &[ProfileElem]) -> (r: Result<
        Self::Body,
        Self::Error,
    >)
        ensures
            final(self).log() == old(self).log().push(
                Step { call: Call::SketchProfile { plane, elements: elements@ }, result: r },
            ),
    ;

    /// Extrude a planar face along its normal.
    fn extrude(&mut self, profile: &Self::Body, distance: Scalar) -> (r: Result<
        Self::Body,
        Self::Error,
    >)
        ensures
            final(self).log() == old(self).log().push(
                Step { call: Call::Extrude { profile: *profile, distance }, result: r },
            ),
    ;

    /// Revolve a planar face by `angle` radians about the straight edge nearest
    /// to `axis_point`.
    fn revolve(&mut self, profile: &Self::Body, axis_point: DVec3, angle: Scalar) -> (r: Result<
        Self::Body,
        Self::Error,
    >)
        ensures
            final(self).log() == old(self).log().push(
                Step { call: Call::Revolve { profile: *profile, axis_point, angle }, result: r },
            ),
    ;

    fn translate(&mut self, body: &Self::Body, offset: DVec3) -> (r: Result<
        Self::Body,
        Self::Error,
    >)
        ensures
            final(self).log() == old(self).log().push(
                Step { call: Call::Translate { body: *body, offset }, result: r },
            ),
    ;

    fn boolean(&mut self, op: BooleanOp, target: &Self::Body, tool: &Self::Body) -> (r: Result<
        Self::Body,
        Self::Error,
    >)
        ensures
            final(self).log() == old(self).log().push(
                Step { call: Call::Boolean { op, target: *target, tool: *tool }, result: r },
            ),
    ;

    fn fillet_all(&mut self, body: &Self::Body, radius: Scalar) -> (r: Result<
        Self::Body,
        Self::Error,
    >)
        ensures
            final(self).log() == old(self).log().push(
                Step { call: Call::FilletAll { body: *body, radius }, result: r },
            ),
    ;

    /// Fillet the edges nearest to the anchors, in one operation.
    fn fillet_edges(&mut self, body: &Self::Body, anchors: &[EdgeAnchor], radius: Scalar) -> (r:
        Result<Self::Body, Self::Error>)
        ensures
            final(self).log() == old(self).log().push(
                Step {
                    call: Call::FilletEdges { body: *body, anchors: anchors@, radius },
                    result: r,
                },
            ),
    ;

    /// Push or pull the anchored face along its normal.
    fn push_pull(&mut self, body: &Self::Body, anchor: FaceAnchor, distance: Scalar) -> (r: Result<
        Self::Body,
        Self::Error,
    >)
        ensures
            final(self).log() == old(self).log().push(
                Step { call: Call::PushPull { body: *body, anchor, distance }, result: r },
            ),
    ;

    /// Rotate by `angle` radians about the line through `center` along `axis`.
    fn rotate(&mut self, body: &Self::Body, center: DVec3, axis: DVec3, angle: Scalar) -> (r: Result<
        Self::Body,
        Self::Error,
    >)
        ensures
            final(self).log() == old(self).log().push(
                Step { call: Call::Rotate { body: *body, center, axis, angle }, result: r },
            ),
    ;

    /// Scale per axis about the fixed point `anchor`.
    fn scale(&mut self, body: &Self::Body, factors: DVec3, anchor: DVec3) -> (r: Result<
        Self::Body,
        Self::Error,
    >)
        ensures
            final(self).log() == old(self).log().push(
                Step { call: Call::Scale { body: *body, factors, anchor }, result: r },
            ),
    ;

    /// Reflect across the plane through `origin` with the given normal.
    fn mirror(&mut self, body: &Self::Body, origin: DVec3, normal: DVec3) -> (r: Result<
        Self::Body,
        Self::Error,
    >)
        ensures
            final(self).log() == old(self).log().push(
                Step { call: Call::Mirror { body: *body, origin, normal }, result: r },
            ),
    ;

    /// Bundle bodies into one, keeping each distinct. There is at least one.
    fn compound(&mut self, members: &[&Self::Body]) -> (r: Result<Self::Body, Self::Error>)
        requires
            members@.len() > 0,
        ensures
            final(self).log() == old(self).log().push(
                Step { call: Call::Compound { members: pointees(members@) }, result: r },
            ),
    ;

    /// Sweep a planar face along an open path on a plane.
    fn sweep(&mut self, profile: &Self::Body, plane: SketchPlane, path: &[ProfileElem]) -> (r:
        Result<Self::Body, Self::Error>)
        ensures
            final(self).log() == old(self).log().push(
                Step { call: Call::Sweep { profile: *profile, plane, path: path@ }, result: r },
            ),
    ;
}

} // verus!
