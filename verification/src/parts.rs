//! The part a new document starts from.

use crate::document::{Document, DocumentModel};
use crate::features::{BooleanOp, FeatureId, FeatureKind, KindModel};
use crate::scalar::{DVec3, Scalar};
use crate::sketch::{Constraint, LineId, PointId, Profile, SketchLine, SketchPlane, SketchPoint};
use crate::sketch2d::{Sketch2d, SketchModel};
use crate::solver_laws::Geometry;
use vstd::prelude::*;

verus! {

/// The constraints of a rectangle drawn corner by corner: one corner stays, the
/// sides are level or upright, and two of them have the given lengths.
pub open spec fn rectangle_constraints(width: Scalar, height: Scalar) -> Seq<Constraint> {
    seq![
        Constraint::Fixed(PointId(0)),
        Constraint::Horizontal(LineId(0)),
        Constraint::Vertical(LineId(1)),
        Constraint::Horizontal(LineId(2)),
        Constraint::Vertical(LineId(3)),
        Constraint::Distance(PointId(0), PointId(1), width),
        Constraint::Distance(PointId(1), PointId(2), height),
    ]
}

/// A rectangle by constraints, its corners placed roughly.
pub open spec fn rectangle(corners: [[Scalar; 2]; 4], width: Scalar, height: Scalar) -> SketchModel {
    SketchModel {
        points: Seq::new(4, |i: int| SketchPoint { x: corners[i][0], y: corners[i][1] }),
        lines: seq![
            SketchLine { a: PointId(0), b: PointId(1) },
            SketchLine { a: PointId(1), b: PointId(2) },
            SketchLine { a: PointId(2), b: PointId(3) },
            SketchLine { a: PointId(3), b: PointId(0) },
        ],
        circles: seq![],
        constraints: rectangle_constraints(width, height),
        beziers: seq![],
    }
}

/// A rectangle by constraints. The corners may be placed roughly, except for the
/// first, which stays; solving moves the others.
pub fn constraint_rectangle(corners: [[Scalar; 2]; 4], width: Scalar, height: Scalar) -> (s:
    Sketch2d)
    ensures
        s@ == rectangle(corners, width, height),
{
    let mut s = Sketch2d::new();
    let p0 = s.add_point(corners[0][0], corners[0][1]);
    let p1 = s.add_point(corners[1][0], corners[1][1]);
    let p2 = s.add_point(corners[2][0], corners[2][1]);
    let p3 = s.add_point(corners[3][0], corners[3][1]);

    let bottom = s.add_line(p0, p1);
    let right = s.add_line(p1, p2);
    let top = s.add_line(p2, p3);
    let left = s.add_line(p3, p0);

    s.add_constraint(Constraint::Fixed(p0));
    s.add_constraint(Constraint::Horizontal(bottom));
    s.add_constraint(Constraint::Vertical(right));
    s.add_constraint(Constraint::Horizontal(top));
    s.add_constraint(Constraint::Vertical(left));
    s.add_constraint(Constraint::Distance(p0, p1, width));
    s.add_constraint(Constraint::Distance(p1, p2, height));
    proof {
        let want = rectangle(corners, width, height);
        assert(s@.points =~= want.points);
        assert(s@.lines =~= want.lines);
        assert(s@.constraints =~= want.constraints);
        assert(s@ =~= want);
    }
    s
}

/// Forty millimetres.
pub open spec fn forty() -> Scalar {
    Scalar { bits: 0x4044_0000_0000_0000 }
}

/// The starting part: a block with rounded edges and a hole bored through it.
pub open spec fn starting_part(base: SketchModel) -> DocumentModel {
    DocumentModel::empty("spike-part"@).added(
        "Base profile"@,
        KindModel::ConstraintSketch { plane: SketchPlane::Xy, sketch: base },
    ).added(
        "Extrude base"@,
        KindModel::Extrude { source: FeatureId(1), distance: forty() },
    ).added(
        "Fillet edges"@,
        KindModel::FilletAll {
            source: FeatureId(2),
            radius: Scalar { bits: 0x4010_0000_0000_0000 },
        },
    ).added(
        "Hole profile"@,
        KindModel::Sketch {
            plane: SketchPlane::Xy,
            profile: Profile::Circle { radius: Scalar { bits: 0x4018_0000_0000_0000 } },
        },
    ).added(
        "Extrude hole"@,
        KindModel::Extrude {
            source: FeatureId(4),
            distance: Scalar { bits: 0x404e_0000_0000_0000 },
        },
    ).added(
        "Position hole"@,
        KindModel::Translate {
            source: FeatureId(5),
            offset: DVec3 {
                x: Scalar { bits: 0 },
                y: Scalar { bits: 0 },
                z: Scalar { bits: 0xc024_0000_0000_0000 },
            },
        },
    ).added(
        "Bore hole"@,
        KindModel::Boolean {
            op: BooleanOp::Subtract,
            target: FeatureId(3),
            tool: FeatureId(6),
        },
    )
}

/// The starting part, from the sketch of its base: a block extruded by forty
/// millimetres, its edges rounded, with a hole of twelve millimetres bored
/// through it.
pub fn build_document(base: Sketch2d) -> (doc: Document)
    ensures
        doc@ == starting_part(base@),
{
    let mut doc = Document::new("spike-part");
    let base = doc.add(
        "Base profile",
        FeatureKind::ConstraintSketch { plane: SketchPlane::Xy, sketch: base },
    );
    let block = doc.add(
        "Extrude base",
        FeatureKind::Extrude { source: base, distance: Scalar::from_bits(0x4044_0000_0000_0000) },
    );
    let rounded = doc.add(
        "Fillet edges",
        FeatureKind::FilletAll { source: block, radius: Scalar::from_bits(0x4010_0000_0000_0000) },
    );
    let hole = doc.add(
        "Hole profile",
        FeatureKind::Sketch {
            plane: SketchPlane::Xy,
            profile: Profile::Circle { radius: Scalar::from_bits(0x4018_0000_0000_0000) },
        },
    );
    let pin = doc.add(
        "Extrude hole",
        FeatureKind::Extrude { source: hole, distance: Scalar::from_bits(0x404e_0000_0000_0000) },
    );
    let placed = doc.add(
        "Position hole",
        FeatureKind::Translate {
            source: pin,
            offset: DVec3::new(
                Scalar::zero(),
                Scalar::zero(),
                Scalar::from_bits(0xc024_0000_0000_0000),
            ),
        },
    );
    let _ = doc.add(
        "Bore hole",
        FeatureKind::Boolean { op: BooleanOp::Subtract, target: rounded, tool: placed },
    );
    doc
}

/// The rectangle is one: its lines go round its four corners in order and close, every
/// constraint speaks of what is there, and whoever meets them all keeps the first
/// corner, has the sides level and upright in turn, and the first two as long as asked.
pub proof fn law_the_rectangle_is_one(
    corners: [[Scalar; 2]; 4],
    width: Scalar,
    height: Scalar,
    now: SketchModel,
    g: Geometry,
)
    requires
        now.lines == rectangle(corners, width, height).lines,
        now.points.len() == 4,
        forall|i: int|
            0 <= i < 7 ==> crate::solver_laws::meets(
                rectangle(corners, width, height),
                now,
                #[trigger] rectangle(corners, width, height).constraints[i],
                g,
            ),
    ensures
        ({
            let s = rectangle(corners, width, height);
            &&& s.solvable()
            &&& s.profile_loop() matches Some(places) && places.len() == 4 && forall|i: int|
                0 <= i < 4 ==> (#[trigger] places[i])[0] == corners[i][0] && places[i][1]
                    == corners[i][1]
            &&& now.points[0].x.equals(corners[0][0]) && now.points[0].y.equals(corners[0][1])
            &&& now.points[0].y.equals(now.points[1].y) && now.points[2].y.equals(now.points[3].y)
            &&& now.points[1].x.equals(now.points[2].x) && now.points[3].x.equals(now.points[0].x)
            &&& (g.distance)(now.points[0], now.points[1]).equals(width)
            &&& (g.distance)(now.points[1], now.points[2]).equals(height)
        }),
{
    let s = rectangle(corners, width, height);
    let segs = s.line_segments();
    let order = Seq::new(4, |i: int| i);
    let around = Seq::new(4, |i: int| PointId(i as usize));
    assert forall|i: int| 0 <= i < 4 implies crate::sketch_laws::joins(
        segs[#[trigger] order[i]],
        around[i],
        around[crate::sketch_laws::around(i + 1, 4)],
    ) by {
        assert(i == 0 || i == 1 || i == 2 || i == 3);
    }
    assert(crate::sketch_laws::polygon(segs, order, around));
    crate::sketch_laws::lemma_polygon_walk(segs, order, around, 4);
    let w = crate::sketch2d::closed_walk(segs)->Some_0;
    let places = s.profile_loop()->Some_0;
    assert forall|i: int| 0 <= i < 4 implies (#[trigger] places[i])[0] == corners[i][0]
        && places[i][1] == corners[i][1] by {
        assert(w.points[i] == around[i]);
    }
    assert forall|i: int| 0 <= i < s.constraints.len() implies s.constraint_known(
        #[trigger] s.constraints[i],
    ) by {
        assert(i == 0 || i == 1 || i == 2 || i == 3 || i == 4 || i == 5 || i == 6);
    }
    let c = s.constraints;
    assert(crate::solver_laws::meets(s, now, c[0], g));
    assert(crate::solver_laws::meets(s, now, c[1], g));
    assert(crate::solver_laws::meets(s, now, c[2], g));
    assert(crate::solver_laws::meets(s, now, c[3], g));
    assert(crate::solver_laws::meets(s, now, c[4], g));
    assert(crate::solver_laws::meets(s, now, c[5], g));
    assert(crate::solver_laws::meets(s, now, c[6], g));
}

/// The starting part is whole: every reference points backward, each feature but the
/// last is used by a later one, the last bores the placed pin out of the rounded block,
/// and the sizes are forty for the block, four for its edges, and six wide and sixty
/// long for the pin, which begins ten below.
pub proof fn law_the_starting_part_is_whole(base: SketchModel)
    ensures
        ({
            let doc = starting_part(base);
            let f = doc.history.features;
            let low = Scalar { bits: 0xc024_0000_0000_0000 };
            &&& doc.history.well_formed() && crate::history::sound(f)
            &&& doc.active() == f && f.len() == 7
            &&& forall|i: int|
                0 <= i < 6 ==> exists|j: int|
                    i < j < 7 && (#[trigger] f[j]).kind.inputs().contains((#[trigger] f[i]).id)
            &&& f[0].kind matches KindModel::ConstraintSketch { sketch, .. } && sketch == base
            &&& f[1].kind matches KindModel::Extrude { source, distance } && source == f[0].id
                && crate::scalar_laws::is_nearest(distance, 40, 1, 47, 0x8000_0000_0000)
            &&& f[2].kind matches KindModel::FilletAll { source, radius } && source == f[1].id
                && crate::scalar_laws::is_nearest(radius, 4, 1, 50, 0x4_0000_0000_0000)
            &&& f[3].kind matches KindModel::Sketch { profile: Profile::Circle { radius }, .. }
                && crate::scalar_laws::is_nearest(radius, 6, 1, 50, 0x4_0000_0000_0000)
            &&& f[4].kind matches KindModel::Extrude { source, distance } && source == f[3].id
                && crate::scalar_laws::is_nearest(distance, 60, 1, 47, 0x8000_0000_0000)
            &&& f[5].kind matches KindModel::Translate { source, offset } && source == f[4].id
                && offset.z.flipped() == low.flipped() && crate::scalar_laws::is_nearest(
                offset.z.flipped(),
                10,
                1,
                49,
                0x2_0000_0000_0000,
            ) && offset.x.bits == 0 && offset.y.bits == 0
            &&& f[6].kind matches KindModel::Boolean { op, target, tool } && op
                == BooleanOp::Subtract && target == f[2].id && tool == f[5].id
        }),
{
    let doc = starting_part(base);
    let f = doc.history.features;
    assert(f.len() == 7);
    assert(f[0].id == FeatureId(1) && f[1].id == FeatureId(2) && f[2].id == FeatureId(3));
    assert(f[3].id == FeatureId(4) && f[4].id == FeatureId(5) && f[5].id == FeatureId(6));
    assert(f[6].id == FeatureId(7));
    assert(doc.active() =~= f);
    assert forall|i: int| 0 <= i < 6 implies exists|j: int|
        i < j < 7 && (#[trigger] f[j]).kind.inputs().contains((#[trigger] f[i]).id) by {
        let j = if i == 2 {
            6
        } else {
            i + 1
        };
        assert(f[j].kind.inputs()[0] == f[i].id || f[j].kind.inputs()[1] == f[i].id);
        assert(f[j].kind.inputs().contains(f[i].id));
    }
    assert forall|i: int, k: int|
        #![trigger f[i].kind.inputs()[k]]
        0 <= i < f.len() && 0 <= k < f[i].kind.inputs().len() implies crate::history::backward(
        f,
        i,
        f[i].kind.inputs()[k],
    ) by {
        crate::history::lemma_position(f, f[i].kind.inputs()[k], 0);
        assert(i == 0 || i == 1 || i == 2 || i == 3 || i == 4 || i == 5 || i == 6);
    }
}

} // verus!
