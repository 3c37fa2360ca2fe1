//! Drawing a sketch.
//!
//! A session holds the sketch being drawn, apart from the document until it is
//! finished, so a half-drawn profile never fails a rebuild. Points are placed
//! one after another, each joined to the last; closing joins the last to the
//! first. Then points and lines are selected and constrained.

use crate::scalar::Scalar;
use crate::sketch::{Constraint, LineId, PointId, SketchLine, SketchPlane, SketchPoint};
use crate::sketch2d::{Sketch2d, SketchModel};
use vstd::prelude::*;

verus! {

/// What a click on the canvas does.
#[derive(Clone, Copy, PartialEq, Eq, Debug, Structural)]
pub enum SketchTool {
    /// Place points, joined by lines.
    Line,
    /// Select points and lines to constrain.
    Select,
}

/// A sketch being drawn.
#[derive(Debug)]
pub struct SketchSession {
    pub plane: SketchPlane,
    pub sketch: Sketch2d,
    pub tool: SketchTool,
    /// The first point placed, to which the loop closes.
    pub start: Option<PointId>,
    /// The point placed last, where the next line begins.
    pub last: Option<PointId>,
    /// Whether the loop has been closed.
    pub closed: bool,
    pub selected_points: Vec<PointId>,
    pub selected_lines: Vec<LineId>,
    /// How much could still move when the sketch was last solved.
    pub dof: usize,
}

/// What a [`SketchSession`] holds.
#[verifier::ext_equal]
pub struct SessionModel {
    pub plane: SketchPlane,
    pub sketch: SketchModel,
    pub tool: SketchTool,
    pub start: Option<PointId>,
    pub last: Option<PointId>,
    pub closed: bool,
    pub selected_points: Seq<PointId>,
    pub selected_lines: Seq<LineId>,
    pub dof: usize,
}

impl View for SketchSession {
    type V = SessionModel;

    open spec fn view(&self) -> SessionModel {
        SessionModel {
            plane: self.plane,
            sketch: self.sketch@,
            tool: self.tool,
            start: self.start,
            last: self.last,
            closed: self.closed,
            selected_points: self.selected_points@,
            selected_lines: self.selected_lines@,
            dof: self.dof,
        }
    }
}

/// The items with one put in or taken out.
pub open spec fn toggled<T>(items: Seq<T>, item: T) -> Seq<T> {
    if items.contains(item) {
        items.remove_value(item)
    } else {
        items.push(item)
    }
}

/// Ten pixels: how near a click has to be to a point.
pub open spec fn point_reach() -> Scalar {
    Scalar { bits: 0x4024_0000_0000_0000 }
}

/// Eight pixels: how near a click has to be to a line.
pub open spec fn line_reach() -> Scalar {
    Scalar { bits: 0x4020_0000_0000_0000 }
}

impl SessionModel {
    /// Nothing drawn yet.
    pub open spec fn begun(plane: SketchPlane) -> SessionModel {
        SessionModel {
            plane,
            sketch: crate::sketch2d::empty_sketch(),
            tool: SketchTool::Line,
            start: None,
            last: None,
            closed: false,
            selected_points: seq![],
            selected_lines: seq![],
            dof: 0,
        }
    }

    /// Everything named is part of the sketch.
    pub open spec fn well_formed(self) -> bool {
        &&& self.sketch.well_formed()
        &&& self.start matches Some(p) ==> self.sketch.has_point(p)
        &&& self.last matches Some(p) ==> self.sketch.has_point(p)
        &&& forall|i: int|
            0 <= i < self.selected_points.len() ==> self.sketch.has_point(
                #[trigger] self.selected_points[i],
            )
        &&& forall|i: int|
            0 <= i < self.selected_lines.len() ==> (#[trigger] self.selected_lines[i]).0
                < self.sketch.lines.len()
    }

    /// Nothing selected.
    pub open spec fn unselected(self) -> SessionModel {
        SessionModel { selected_points: seq![], selected_lines: seq![], ..self }
    }

    /// Another tool in hand, and nothing selected.
    pub open spec fn with_tool(self, tool: SketchTool) -> SessionModel {
        (SessionModel { tool, ..self }).unselected()
    }

    /// A point placed, joined to the last one.
    pub open spec fn with_point(self, u: Scalar, v: Scalar) -> SessionModel {
        let p = PointId(self.sketch.points.len() as usize);
        SessionModel {
            sketch: SketchModel {
                points: self.sketch.points.push(SketchPoint { x: u, y: v }),
                lines: match self.last {
                    Some(last) => self.sketch.lines.push(SketchLine { a: last, b: p }),
                    None => self.sketch.lines,
                },
                ..self.sketch
            },
            start: if self.start is None {
                Some(p)
            } else {
                self.start
            },
            last: Some(p),
            ..self
        }
    }

    /// The last point joined to the first, and selecting from here on.
    pub open spec fn closed_up(self) -> SessionModel {
        SessionModel {
            sketch: SketchModel {
                lines: match (self.last, self.start) {
                    (Some(last), Some(start)) => self.sketch.lines.push(
                        SketchLine { a: last, b: start },
                    ),
                    _ => self.sketch.lines,
                },
                ..self.sketch
            },
            closed: true,
            tool: SketchTool::Select,
            ..self
        }
    }

    /// A constraint added, and nothing selected.
    pub open spec fn constrained(self, constraint: Constraint) -> SessionModel {
        (SessionModel {
            sketch: SketchModel {
                constraints: self.sketch.constraints.push(constraint),
                ..self.sketch
            },
            ..self
        }).unselected()
    }

    /// The nearest point within reach selected or deselected; else the nearest
    /// line; else nothing is left selected.
    pub open spec fn picked(
        self,
        points: Seq<(Scalar, PointId)>,
        lines: Seq<(Scalar, LineId)>,
    ) -> SessionModel {
        match crate::picking::nearest_item(point_reach(), points) {
            Some(p) => SessionModel {
                selected_points: toggled(self.selected_points, p),
                ..self
            },
            None => match crate::picking::nearest_item(line_reach(), lines) {
                Some(l) => SessionModel {
                    selected_lines: toggled(self.selected_lines, l),
                    ..self
                },
                None => self.unselected(),
            },
        }
    }

    /// What a click on the canvas asks for, `from_start` pixels from the first point
    /// and at `on_plane` on the plane.
    pub open spec fn asked_for(
        self,
        from_start: Option<Scalar>,
        on_plane: Option<[Scalar; 2]>,
    ) -> CanvasClick {
        match self.tool {
            SketchTool::Select => CanvasClick::Pick,
            SketchTool::Line => {
                let near = !self.closed && self.start is Some && (from_start matches Some(d)
                    && d.less(point_reach()));
                if near && self.sketch.lines.len() >= 2 {
                    CanvasClick::CloseLoop
                } else {
                    match on_plane {
                        Some(uv) => CanvasClick::AddPoint(uv),
                        None => CanvasClick::Nothing,
                    }
                }
            },
        }
    }

    /// The two selected lines, where exactly two are.
    pub open spec fn two_lines(self) -> Option<(LineId, LineId)> {
        if self.selected_lines.len() == 2 {
            Some((self.selected_lines[0], self.selected_lines[1]))
        } else {
            None
        }
    }

    /// The two selected points, where exactly two are.
    pub open spec fn two_points(self) -> Option<(PointId, PointId)> {
        if self.selected_points.len() == 2 {
            Some((self.selected_points[0], self.selected_points[1]))
        } else {
            None
        }
    }

    /// The only selected line.
    pub open spec fn one_line(self) -> Option<LineId> {
        if self.selected_lines.len() == 1 {
            Some(self.selected_lines[0])
        } else {
            None
        }
    }

    /// The points between which a distance can be fixed: the two selected ones,
    /// or the ends of the only selected line.
    pub open spec fn distance_ends(self) -> Option<(PointId, PointId)> {
        match (self.two_points(), self.one_line()) {
            (Some(pair), _) => Some(pair),
            (None, Some(l)) => Some(
                (self.sketch.lines[l.0 as int].a, self.sketch.lines[l.0 as int].b),
            ),
            (None, None) => None,
        }
    }

    /// The constraint a button applies to what is selected. A button without one
    /// is disabled.
    pub open spec fn offered(self, button: ConstraintButton, length: Scalar) -> Option<Constraint> {
        match button {
            ConstraintButton::Horizontal => match self.one_line() {
                Some(l) => Some(Constraint::Horizontal(l)),
                None => None,
            },
            ConstraintButton::Vertical => match self.one_line() {
                Some(l) => Some(Constraint::Vertical(l)),
                None => None,
            },
            ConstraintButton::Perpendicular => match self.two_lines() {
                Some((a, b)) => Some(Constraint::Perpendicular(a, b)),
                None => None,
            },
            ConstraintButton::Parallel => match self.two_lines() {
                Some((a, b)) => Some(Constraint::Parallel(a, b)),
                None => None,
            },
            ConstraintButton::Equal => match self.two_lines() {
                Some((a, b)) => Some(Constraint::EqualLength(a, b)),
                None => None,
            },
            ConstraintButton::Coincident => match self.two_points() {
                Some((a, b)) => Some(Constraint::Coincident(a, b)),
                None => None,
            },
            ConstraintButton::Fixed => if self.selected_points.len() == 1 {
                Some(Constraint::Fixed(self.selected_points[0]))
            } else {
                None
            },
            ConstraintButton::Distance => match self.distance_ends() {
                Some((a, b)) => Some(Constraint::Distance(a, b, length)),
                None => None,
            },
        }
    }
}

/// The constraint buttons of the toolbar.
#[derive(Clone, Copy, PartialEq, Eq, Debug, Structural)]
pub enum ConstraintButton {
    Horizontal,
    Vertical,
    Perpendicular,
    Parallel,
    Equal,
    Coincident,
    Fixed,
    Distance,
}

/// What a click on the canvas asks for.
#[derive(Clone, Copy, Debug)]
pub enum CanvasClick {
    Nothing,
    CloseLoop,
    AddPoint([Scalar; 2]),
    Pick,
}

impl SketchSession {
    /// Begin drawing on a plane.
    pub fn new(plane: SketchPlane) -> (r: SketchSession)
        ensures
            r@ == SessionModel::begun(plane),
    {
        SketchSession {
            plane,
            sketch: Sketch2d::new(),
            tool: SketchTool::Line,
            start: None,
            last: None,
            closed: false,
            selected_points: Vec::new(),
            selected_lines: Vec::new(),
            dof: 0,
        }
    }

    /// Deselect everything.
    pub fn deselect(&mut self)
        ensures
            final(self)@ == old(self)@.unselected(),
    {
        self.selected_points.clear();
        self.selected_lines.clear();
    }

    /// Take up a tool.
    pub fn set_tool(&mut self, tool: SketchTool)
        ensures
            final(self)@ == old(self)@.with_tool(tool),
    {
        self.tool = tool;
        self.deselect();
    }

    /// Place a point, joined to the one placed last.
    pub fn add_point(&mut self, u: Scalar, v: Scalar)
        ensures
            final(self)@ == old(self)@.with_point(u, v),
    {
        let p = self.sketch.add_point(u, v);
        if let Some(last) = self.last {
            self.sketch.add_line(last, p);
        }
        if self.start.is_none() {
            self.start = Some(p);
        }
        self.last = Some(p);
        proof {
            assert(p == PointId(old(self)@.sketch.points.len() as usize));
        }
    }

    /// Join the last point to the first. The sketch is to be solved next.
    pub fn close_loop(&mut self)
        ensures
            final(self)@ == old(self)@.closed_up(),
    {
        if let (Some(last), Some(start)) = (self.last, self.start) {
            self.sketch.add_line(last, start);
        }
        self.closed = true;
        self.tool = SketchTool::Select;
    }

    /// Add a constraint. The sketch is to be solved next.
    pub fn apply(&mut self, constraint: Constraint)
        ensures
            final(self)@ == old(self)@.constrained(constraint),
    {
        self.sketch.add_constraint(constraint);
        self.deselect();
    }

    /// Select or deselect what a click is near, given how far each visible point
    /// and line is from it.
    pub fn pick_entity(
        &mut self,
        points: &Vec<(Scalar, PointId)>,
        lines: &Vec<(Scalar, LineId)>,
    )
        ensures
            final(self)@ == old(self)@.picked(points@, lines@),
    {
        match crate::picking::nearest(Scalar::from_bits(0x4024_0000_0000_0000), points) {
            Some(p) => {
                crate::selection::toggle(&mut self.selected_points, p);
            },
            None => match crate::picking::nearest(
                Scalar::from_bits(0x4020_0000_0000_0000),
                lines,
            ) {
                Some(l) => {
                    crate::selection::toggle(&mut self.selected_lines, l);
                },
                None => self.deselect(),
            },
        }
    }

    /// Take over the solved coordinates and what is left to move.
    pub fn solved(&mut self, vars: &Vec<Scalar>, dof: usize)
        requires
            vars@.len() == old(self)@.sketch.variables(),
        ensures
            final(self)@ == (SessionModel {
                sketch: old(self)@.sketch.unpacked(vars@),
                dof,
                ..old(self)@
            }),
    {
        self.sketch.unpack(vars);
        self.dof = dof;
    }

    /// The two selected lines, where exactly two are.
    pub fn two_lines(&self) -> (r: Option<(LineId, LineId)>)
        ensures
            r == self@.two_lines(),
    {
        if self.selected_lines.len() == 2 {
            Some((self.selected_lines[0], self.selected_lines[1]))
        } else {
            None
        }
    }

    /// The two selected points, where exactly two are.
    pub fn two_points(&self) -> (r: Option<(PointId, PointId)>)
        ensures
            r == self@.two_points(),
    {
        if self.selected_points.len() == 2 {
            Some((self.selected_points[0], self.selected_points[1]))
        } else {
            None
        }
    }

    fn one_line(&self) -> (r: Option<LineId>)
        ensures
            r == self@.one_line(),
    {
        if self.selected_lines.len() == 1 {
            Some(self.selected_lines[0])
        } else {
            None
        }
    }

    /// The points between which a distance can be fixed. The distance offered is
    /// the present one.
    pub fn distance_ends(&self) -> (r: Option<(PointId, PointId)>)
        requires
            self@.well_formed(),
        ensures
            r == self@.distance_ends(),
    {
        match self.two_points() {
            Some(pair) => Some(pair),
            None => match self.one_line() {
                Some(l) => {
                    assert(l == self@.selected_lines[0]);
                    let line = self.sketch.line(l);
                    Some((line.a, line.b))
                },
                None => None,
            },
        }
    }

    /// The constraint a button applies to what is selected; nothing if the
    /// button is disabled. `length` is the present distance between
    /// [`SketchSession::distance_ends`], rounded to a tenth of a millimetre.
    pub fn offered(&self, button: ConstraintButton, length: Scalar) -> (r: Option<Constraint>)
        requires
            self@.well_formed(),
        ensures
            r == self@.offered(button, length),
    {
        match button {
            ConstraintButton::Horizontal => match self.one_line() {
                Some(l) => Some(Constraint::Horizontal(l)),
                None => None,
            },
            ConstraintButton::Vertical => match self.one_line() {
                Some(l) => Some(Constraint::Vertical(l)),
                None => None,
            },
            ConstraintButton::Perpendicular => match self.two_lines() {
                Some((a, b)) => Some(Constraint::Perpendicular(a, b)),
                None => None,
            },
            ConstraintButton::Parallel => match self.two_lines() {
                Some((a, b)) => Some(Constraint::Parallel(a, b)),
                None => None,
            },
            ConstraintButton::Equal => match self.two_lines() {
                Some((a, b)) => Some(Constraint::EqualLength(a, b)),
                None => None,
            },
            ConstraintButton::Coincident => match self.two_points() {
                Some((a, b)) => Some(Constraint::Coincident(a, b)),
                None => None,
            },
            ConstraintButton::Fixed => {
                if self.selected_points.len() == 1 {
                    Some(Constraint::Fixed(self.selected_points[0]))
                } else {
                    None
                }
            },
            ConstraintButton::Distance => match self.distance_ends() {
                Some((a, b)) => Some(Constraint::Distance(a, b, length)),
                None => None,
            },
        }
    }

    /// What a click on the canvas does. With the line tool it closes the loop if
    /// it is near the first point of at least two lines, and else places a point
    /// where it meets the plane. `from_start` is how far the click is from the
    /// first point, where that is visible.
    pub fn canvas_click(&self, from_start: Option<Scalar>, on_plane: Option<[Scalar; 2]>) -> (r:
        CanvasClick)
        ensures
            r == self@.asked_for(from_start, on_plane),
    {
        match self.tool {
            SketchTool::Select => CanvasClick::Pick,
            SketchTool::Line => {
                let near = !self.closed && self.start.is_some() && match from_start {
                    Some(d) => d < Scalar::from_bits(0x4024_0000_0000_0000),
                    None => false,
                };
                if near && self.sketch.lines.len() >= 2 {
                    CanvasClick::CloseLoop
                } else {
                    match on_plane {
                        Some(uv) => CanvasClick::AddPoint(uv),
                        None => CanvasClick::Nothing,
                    }
                }
            },
        }
    }

    /// What the toolbar says of the remaining freedom.
    pub fn status_text(&self) -> (r: String)
        ensures
            r@ == (if self@.dof == 0 {
                "fully constrained"@
            } else {
                crate::text::decimal(self@.dof as nat) + " dof"@
            }),
    {
        if self.dof == 0 {
            String::from_str("fully constrained")
        } else {
            let mut text = crate::text::decimal_text(self.dof as u64);
            text.append(" dof");
            text
        }
    }

    /// What the toolbar says of the tool in hand.
    pub fn hint(&self) -> (r: &'static str)
        ensures
            r == (match self@.tool {
                SketchTool::Line =>
                    "Line: click the plane to add points; click the first point to close.",
                SketchTool::Select => "Select: click points/lines, then apply a constraint.",
            }),
    {
        match self.tool {
            SketchTool::Line => {
                "Line: click the plane to add points; click the first point to close."
            },
            SketchTool::Select => "Select: click points/lines, then apply a constraint.",
        }
    }
}

/// The session after placing points one after another.
pub open spec fn drawn(plane: SketchPlane, places: Seq<[Scalar; 2]>) -> SessionModel
    decreases places.len(),
{
    if places.len() == 0 {
        SessionModel::begun(plane)
    } else {
        drawn(plane, places.drop_last()).with_point(places.last()[0], places.last()[1])
    }
}

/// What drawing leaves: every point in its place, each joined to the next.
proof fn lemma_drawn(plane: SketchPlane, places: Seq<[Scalar; 2]>)
    requires
        places.len() <= usize::MAX,
    ensures
        ({
            let s = drawn(plane, places);
            let n = places.len() as int;
            &&& s.sketch.points.len() == n
            &&& s.sketch.lines.len() == (if n == 0 {
                0
            } else {
                n - 1
            })
            &&& s.sketch.beziers.len() == 0
            &&& s.start == (if n == 0 {
                None
            } else {
                Some(PointId(0))
            })
            &&& s.last == (if n == 0 {
                None
            } else {
                Some(PointId((n - 1) as usize))
            })
            &&& forall|i: int|
                0 <= i < n ==> #[trigger] s.sketch.points[i] == (SketchPoint {
                    x: places[i][0],
                    y: places[i][1],
                })
            &&& forall|i: int|
                0 <= i < n - 1 ==> #[trigger] s.sketch.lines[i] == (SketchLine {
                    a: PointId(i as usize),
                    b: PointId((i + 1) as usize),
                })
        }),
    decreases places.len(),
{
    if places.len() > 0 {
        let rest = places.drop_last();
        lemma_drawn(plane, rest);
        let before = drawn(plane, rest);
        let after = drawn(plane, places);
        let n = places.len() as int;
        assert forall|i: int| 0 <= i < n implies #[trigger] after.sketch.points[i] == (SketchPoint {
            x: places[i][0],
            y: places[i][1],
        }) by {
            if i < n - 1 {
                assert(before.sketch.points[i] == after.sketch.points[i]);
                assert(rest[i] == places[i]);
            }
        }
        assert forall|i: int| 0 <= i < n - 1 implies #[trigger] after.sketch.lines[i] == (
        SketchLine { a: PointId(i as usize), b: PointId((i + 1) as usize) }) by {
            if i < n - 2 {
                assert(before.sketch.lines[i] == after.sketch.lines[i]);
            }
        }
    }
}

/// Placing three or more points and closing the loop makes a profile with
/// exactly those corners, in the order they were placed.
pub proof fn law_drawing_and_closing_makes_the_profile(
    plane: SketchPlane,
    places: Seq<[Scalar; 2]>,
)
    requires
        3 <= places.len() <= usize::MAX,
    ensures
        drawn(plane, places).closed_up().sketch.profile_loop() == Some(places),
{
    lemma_drawn(plane, places);
    let n = places.len() as int;
    let open = drawn(plane, places);
    let s = open.closed_up().sketch;
    let segs = s.line_segments();
    assert(segs.len() == n);
    let order = Seq::new(n as nat, |i: int| i);
    let corners = Seq::new(n as nat, |i: int| PointId(i as usize));
    assert forall|i: int| 0 <= i < n implies crate::sketch_laws::joins(
        segs[#[trigger] order[i]],
        corners[i],
        corners[crate::sketch_laws::around(i + 1, n)],
    ) by {
        if i < n - 1 {
            assert(s.lines[i] == open.sketch.lines[i]);
        }
    }
    assert(crate::sketch_laws::polygon(segs, order, corners));
    assert(segs[0].a == corners[0]) by {
        assert(s.lines[0] == open.sketch.lines[0]);
    }
    crate::sketch_laws::lemma_polygon_walk(segs, order, corners, segs.len());
    let w = crate::sketch2d::closed_walk(segs)->Some_0;
    let found = s.profile_loop()->Some_0;
    assert forall|i: int| 0 <= i < n implies #[trigger] found[i] == places[i] by {
        assert(w.points[i] == corners[i]);
        assert(s.points[i] == open.sketch.points[i]);
        assert(found[i] =~= places[i]);
    }
    assert(found =~= places);
}

/// Whatever is done, a session only ever names what its sketch holds.
pub proof fn law_sessions_stay_well_formed(
    s: SessionModel,
    tool: SketchTool,
    u: Scalar,
    v: Scalar,
    constraint: Constraint,
    points: Seq<(Scalar, PointId)>,
    lines: Seq<(Scalar, LineId)>,
)
    requires
        s.well_formed(),
        s.sketch.points.len() < usize::MAX,
        forall|i: int| 0 <= i < points.len() ==> s.sketch.has_point((#[trigger] points[i]).1),
        forall|i: int| 0 <= i < lines.len() ==> (#[trigger] lines[i]).1.0 < s.sketch.lines.len(),
    ensures
        SessionModel::begun(s.plane).well_formed(),
        s.with_tool(tool).well_formed(),
        s.with_point(u, v).well_formed(),
        s.closed_up().well_formed(),
        s.constrained(constraint).well_formed(),
        s.picked(points, lines).well_formed(),
{
    let segs = s.sketch.segments();
    let n = s.sketch.lines.len() as int;
    let grown = s.with_point(u, v).sketch;
    assert forall|i: int| 0 <= i < grown.segments().len() implies grown.has_point(
        (#[trigger] grown.segments()[i]).a,
    ) && grown.has_point(grown.segments()[i].b) by {
        if i < n {
            assert(grown.segments()[i] == segs[i]);
        } else if i >= grown.lines.len() {
            let k = i - grown.lines.len();
            assert(grown.segments()[i] == segs[n + k]);
        }
    }
    let shut = s.closed_up().sketch;
    assert forall|i: int| 0 <= i < shut.segments().len() implies shut.has_point(
        (#[trigger] shut.segments()[i]).a,
    ) && shut.has_point(shut.segments()[i].b) by {
        if i < n {
            assert(shut.segments()[i] == segs[i]);
        } else if i >= shut.lines.len() {
            let k = i - shut.lines.len();
            assert(shut.segments()[i] == segs[n + k]);
        }
    }
    assert(s.constrained(constraint).sketch.segments() =~= segs);
    match crate::picking::nearest_item(point_reach(), points) {
        Some(p) => {
            let i = choose|i: int| crate::picking::nearest_is(point_reach(), points, i);
            assert(points[i].1 == p);
            lemma_toggled(s.selected_points, p);
            let after = toggled(s.selected_points, p);
            assert forall|j: int| 0 <= j < after.len() implies s.sketch.has_point(
                #[trigger] after[j],
            ) by {
                assert(s.selected_points.push(p).contains(after[j]));
            }
        },
        None => match crate::picking::nearest_item(line_reach(), lines) {
            Some(l) => {
                let i = choose|i: int| crate::picking::nearest_is(line_reach(), lines, i);
                assert(lines[i].1 == l);
                lemma_toggled(s.selected_lines, l);
                let after = toggled(s.selected_lines, l);
                assert forall|j: int| 0 <= j < after.len() implies (#[trigger] after[j]).0
                    < s.sketch.lines.len() by {
                    assert(s.selected_lines.push(l).contains(after[j]));
                }
            },
            None => {},
        },
    }
}

/// Putting an item in or taking it out leaves only it and what was there.
proof fn lemma_toggled<T>(items: Seq<T>, item: T)
    ensures
        forall|j: int|
            0 <= j < toggled(items, item).len() ==> items.push(item).contains(
                #[trigger] toggled(items, item)[j],
            ),
{
    items.index_of_first_ensures(item);
    let after = toggled(items, item);
    let all = items.push(item);
    assert forall|j: int| 0 <= j < after.len() implies all.contains(#[trigger] after[j]) by {
        if items.contains(item) {
            let f = items.index_of_first(item)->Some_0;
            let k = if j < f {
                j
            } else {
                j + 1
            };
            assert(after[j] == all[k]);
        } else {
            assert(after[j] == all[j]);
        }
    }
}

/// A point is placed where it is asked for and joined to the one before it; what was
/// drawn stays, and the first point placed is where the loop will close.
pub proof fn law_a_point_is_placed_and_joined(s: SessionModel, u: Scalar, v: Scalar, i: int)
    requires
        s.sketch.points.len() < usize::MAX,
    ensures
        ({
            let now = s.with_point(u, v);
            let (n, m) = (s.sketch.points.len() as int, s.sketch.lines.len() as int);
            &&& now.sketch.points.len() == n + 1
            &&& now.sketch.points[n].x == u && now.sketch.points[n].y == v
            &&& 0 <= i < n ==> now.sketch.points[i] == s.sketch.points[i]
            &&& 0 <= i < m ==> now.sketch.lines[i] == s.sketch.lines[i]
            &&& match s.last {
                Some(p) => now.sketch.lines.len() == m + 1 && now.sketch.lines[m].a == p
                    && now.sketch.lines[m].b.0 == n,
                None => now.sketch.lines.len() == m,
            }
            &&& now.last matches Some(p) && p.0 == n
            &&& s.start is Some ==> now.start == s.start
            &&& s.start is None ==> now.start == now.last
            &&& now.sketch.constraints == s.sketch.constraints
            &&& now.plane == s.plane
        }),
        ({
            let now = s.closed_up();
            let m = s.sketch.lines.len() as int;
            &&& now.sketch.points == s.sketch.points
            &&& 0 <= i < m ==> now.sketch.lines[i] == s.sketch.lines[i]
            &&& s.last is Some && s.start is Some ==> now.sketch.lines.len() == m + 1
                && Some(now.sketch.lines[m].a) == s.last && Some(now.sketch.lines[m].b) == s.start
            &&& now.closed && now.tool == SketchTool::Select
        }),
{
}

/// What a button applies is the constraint it is called after, on what is selected: on
/// the one line, on both lines or on both points, in the order they were selected. It
/// applies to nothing else.
pub proof fn law_buttons_apply_to_the_selection(
    s: SessionModel,
    button: ConstraintButton,
    length: Scalar,
)
    ensures
        match s.offered(button, length) {
            Some(Constraint::Horizontal(l)) => button == ConstraintButton::Horizontal
                && s.selected_lines == seq![l],
            Some(Constraint::Vertical(l)) => button == ConstraintButton::Vertical
                && s.selected_lines == seq![l],
            Some(Constraint::Perpendicular(a, b)) => button == ConstraintButton::Perpendicular
                && s.selected_lines == seq![a, b],
            Some(Constraint::Parallel(a, b)) => button == ConstraintButton::Parallel
                && s.selected_lines == seq![a, b],
            Some(Constraint::EqualLength(a, b)) => button == ConstraintButton::Equal
                && s.selected_lines == seq![a, b],
            Some(Constraint::Coincident(a, b)) => button == ConstraintButton::Coincident
                && s.selected_points == seq![a, b],
            Some(Constraint::Fixed(p)) => button == ConstraintButton::Fixed && s.selected_points
                == seq![p],
            Some(Constraint::Distance(a, b, d)) => button == ConstraintButton::Distance && d
                == length && (s.selected_points == seq![a, b] || (s.selected_points.len() != 2
                && s.selected_lines.len() == 1 && s.sketch.lines[s.selected_lines[0].0 as int].a
                == a && s.sketch.lines[s.selected_lines[0].0 as int].b == b)),
            Some(Constraint::Radius(..)) => false,
            None => match button {
                ConstraintButton::Horizontal => s.selected_lines.len() != 1,
                ConstraintButton::Vertical => s.selected_lines.len() != 1,
                ConstraintButton::Perpendicular => s.selected_lines.len() != 2,
                ConstraintButton::Parallel => s.selected_lines.len() != 2,
                ConstraintButton::Equal => s.selected_lines.len() != 2,
                ConstraintButton::Coincident => s.selected_points.len() != 2,
                ConstraintButton::Fixed => s.selected_points.len() != 1,
                ConstraintButton::Distance => s.selected_points.len() != 2
                    && s.selected_lines.len() != 1,
            },
        },
{
    let (points, lines) = (s.selected_points, s.selected_lines);
    if lines.len() == 1 {
        assert(lines =~= seq![lines[0]]);
    }
    if lines.len() == 2 {
        assert(lines =~= seq![lines[0], lines[1]]);
    }
    if points.len() == 1 {
        assert(points =~= seq![points[0]]);
    }
    if points.len() == 2 {
        assert(points =~= seq![points[0], points[1]]);
    }
}

/// A constraint that is applied joins the sketch's own, behind them, and the selection
/// is spent; choosing a tool changes the tool and spends the selection too.
pub proof fn law_a_constraint_joins_the_sketch(
    s: SessionModel,
    c: Constraint,
    tool: SketchTool,
)
    ensures
        s.constrained(c).sketch.constraints == s.sketch.constraints.push(c),
        s.constrained(c).sketch.points == s.sketch.points,
        s.constrained(c).sketch.lines == s.sketch.lines,
        s.constrained(c).sketch.circles == s.sketch.circles,
        s.constrained(c).selected_points.len() == 0,
        s.constrained(c).selected_lines.len() == 0,
        s.with_tool(tool).tool == tool,
        s.with_tool(tool).sketch == s.sketch,
        s.with_tool(tool).selected_points.len() == 0,
        s.with_tool(tool).selected_lines.len() == 0,
{
}

/// A click on the drawing takes the nearest point within reach, in or out of the
/// selection; only where no point is, the nearest line; and where nothing is within
/// reach, nothing stays selected. The drawing itself stays as it is.
pub proof fn law_a_click_takes_the_nearest(
    s: SessionModel,
    points: Seq<(Scalar, PointId)>,
    lines: Seq<(Scalar, LineId)>,
    p: PointId,
    l: LineId,
)
    ensures
        ({
            let now = s.picked(points, lines);
            let near = crate::picking::nearest_item(point_reach(), points);
            let close = crate::picking::nearest_item(line_reach(), lines);
            &&& now.sketch == s.sketch
            &&& match (near, close) {
                (Some(q), _) => {
                    &&& now.selected_lines == s.selected_lines
                    &&& s.selected_points.no_duplicates() ==> now.selected_points.contains(p) == (
                    s.selected_points.contains(p) != (p == q))
                },
                (None, Some(m)) => {
                    &&& now.selected_points == s.selected_points
                    &&& s.selected_lines.no_duplicates() ==> now.selected_lines.contains(l) == (
                    s.selected_lines.contains(l) != (l == m))
                },
                (None, None) => now.selected_points.len() == 0 && now.selected_lines.len() == 0,
            }
        }),
{
    match crate::picking::nearest_item(point_reach(), points) {
        Some(q) => {
            if s.selected_points.no_duplicates() {
                lemma_toggled_contains(s.selected_points, q, p);
            }
        },
        None => match crate::picking::nearest_item(line_reach(), lines) {
            Some(m) => {
                if s.selected_lines.no_duplicates() {
                    lemma_toggled_contains(s.selected_lines, m, l);
                }
            },
            None => {},
        },
    }
}

/// Putting in or taking out changes whether the one item is there.
proof fn lemma_toggled_contains<T>(items: Seq<T>, item: T, other: T)
    requires
        items.no_duplicates(),
    ensures
        toggled(items, item).contains(other) == (items.contains(other) != (other == item)),
{
    items.index_of_first_ensures(item);
    let after = toggled(items, item);
    if items.contains(item) {
        let f = items.index_of_first(item)->Some_0;
        assert(items[f] == item);
        if items.contains(other) && other != item {
            let k = items.index_of(other);
            let now = if k < f {
                k
            } else {
                k - 1
            };
            assert(after[now] == other);
        }
        if after.contains(other) {
            let k = after.index_of(other);
            if k < f {
                assert(items[k] == other);
            } else {
                assert(items[k + 1] == other);
            }
        }
    } else {
        assert(after[items.len() as int] == item);
        if items.contains(other) {
            let k = items.index_of(other);
            assert(after[k] == other);
        }
        if after.contains(other) && other != item {
            let k = after.index_of(other);
            assert(items[k] == other);
        }
    }
}

/// A drawing begins empty on its plane with the line tool in hand.
pub proof fn law_a_drawing_begins_empty(plane: SketchPlane)
    ensures
        ({
            let s = SessionModel::begun(plane);
            &&& s.plane == plane && s.tool == SketchTool::Line && !s.closed
            &&& s.sketch.points.len() == 0 && s.sketch.lines.len() == 0
            &&& s.sketch.circles.len() == 0 && s.sketch.beziers.len() == 0
            &&& s.sketch.constraints.len() == 0
            &&& s.start is None && s.last is None
            &&& s.selected_points.len() == 0 && s.selected_lines.len() == 0
        }),
{
}

/// With the line tool a click near the first point closes an open loop that has two
/// lines or more, and any other click on the plane puts a point just there; with the
/// other tool a click picks.
pub proof fn law_what_a_click_on_the_canvas_asks_for(
    s: SessionModel,
    from_start: Option<Scalar>,
    on_plane: Option<[Scalar; 2]>,
)
    ensures
        ({
            let r = s.asked_for(from_start, on_plane);
            let closes = s.tool == SketchTool::Line && !s.closed && s.start is Some
                && s.sketch.lines.len() >= 2 && (from_start matches Some(d) && d.less(
                point_reach(),
            ));
            &&& r is Pick == (s.tool == SketchTool::Select)
            &&& r is CloseLoop == closes
            &&& s.tool == SketchTool::Line && !closes ==> (match on_plane {
                Some(uv) => r matches CanvasClick::AddPoint(at) && at == uv,
                None => r is Nothing,
            })
        }),
{
}

} // verus!
