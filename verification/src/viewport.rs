//! What the mouse does in the viewport.
//!
//! The left button is smart: it grabs a gizmo handle if one is under the cursor,
//! pushes or pulls a face if it starts on one that can be, and orbits otherwise;
//! pressed and released in place it selects. The right button always orbits and
//! the middle one pans. A [`Viewport`] keeps what has to be remembered between
//! events and answers each event with what is to be done. Positions and the
//! geometry of a drag are only kept, so their types are left open.

use crate::scalar::Scalar;
use crate::selection::Pick;
use vstd::prelude::*;

verus! {

/// One of the three world axes.
#[derive(Clone, Copy, PartialEq, Eq, Debug, Structural)]
pub enum Axis3 {
    X,
    Y,
    Z,
}

impl Axis3 {
    /// The two axes that span the plane perpendicular to this one, in the order
    /// in which angles about it are counted.
    pub fn perps(self) -> (r: (Axis3, Axis3))
        ensures
            r == (match self {
                Axis3::X => (Axis3::Y, Axis3::Z),
                Axis3::Y => (Axis3::Z, Axis3::X),
                Axis3::Z => (Axis3::X, Axis3::Y),
            }),
    {
        match self {
            Axis3::X => (Axis3::Y, Axis3::Z),
            Axis3::Y => (Axis3::Z, Axis3::X),
            Axis3::Z => (Axis3::X, Axis3::Y),
        }
    }
}

/// One of the three world planes.
#[derive(Clone, Copy, PartialEq, Eq, Debug, Structural)]
pub enum Plane3 {
    Xy,
    Yz,
    Zx,
}

impl Plane3 {
    /// The two axes in the plane.
    pub open spec fn spanned(self) -> (Axis3, Axis3) {
        match self {
            Plane3::Xy => (Axis3::X, Axis3::Y),
            Plane3::Yz => (Axis3::Y, Axis3::Z),
            Plane3::Zx => (Axis3::Z, Axis3::X),
        }
    }

    /// The axis across the plane.
    pub open spec fn across(self) -> Axis3 {
        match self {
            Plane3::Xy => Axis3::Z,
            Plane3::Yz => Axis3::X,
            Plane3::Zx => Axis3::Y,
        }
    }

    /// The two axes in the plane.
    pub fn axes(self) -> (r: (Axis3, Axis3))
        ensures
            r == self.spanned(),
    {
        match self {
            Plane3::Xy => (Axis3::X, Axis3::Y),
            Plane3::Yz => (Axis3::Y, Axis3::Z),
            Plane3::Zx => (Axis3::Z, Axis3::X),
        }
    }

    /// The axis across the plane.
    pub fn normal(self) -> (r: Axis3)
        ensures
            r == self.across(),
    {
        match self {
            Plane3::Xy => Axis3::Z,
            Plane3::Yz => Axis3::X,
            Plane3::Zx => Axis3::Y,
        }
    }
}

/// A plane's axes and its normal are the three axes.
pub proof fn law_plane_and_normal_are_all_axes(plane: Plane3, axis: Axis3)
    ensures
        axis == plane.spanned().0 || axis == plane.spanned().1 || axis == plane.across(),
        plane.spanned().0 != plane.spanned().1,
        plane.spanned().0 != plane.across(),
        plane.spanned().1 != plane.across(),
{
}

/// A gizmo handle that can be dragged.
#[derive(Clone, Copy, PartialEq, Eq, Debug, Structural)]
pub enum GizmoHandle {
    /// Move along an axis: an arrow.
    TranslateAxis(Axis3),
    /// Move within a plane: a corner square.
    TranslatePlane(Plane3),
    /// Rotate about an axis: a ring.
    RotateAxis(Axis3),
}

/// A corner square as seen by the cursor: for each of the two triangles it is made
/// of, on which side of its three edges the cursor is.
#[derive(Clone, Copy, Debug)]
pub struct SquareView {
    pub plane: Plane3,
    pub first: [Scalar; 3],
    pub second: [Scalar; 3],
}

/// The cursor is in the square.
pub open spec fn covered(s: SquareView) -> bool {
    crate::picking::inside(s.first[0], s.first[1], s.first[2]) || crate::picking::inside(
        s.second[0],
        s.second[1],
        s.second[2],
    )
}

/// The first square the cursor is in, at or after `from`.
pub open spec fn covered_square(squares: Seq<SquareView>, from: int) -> Option<Plane3>
    decreases squares.len() - from,
{
    if from < 0 || from >= squares.len() {
        None
    } else if covered(squares[from]) {
        Some(squares[from].plane)
    } else {
        covered_square(squares, from + 1)
    }
}

/// Ten pixels: how near the cursor has to be to an arrow or a ring.
pub open spec fn handle_reach() -> Scalar {
    Scalar { bits: 0x4024_0000_0000_0000 }
}

/// The handle under the cursor: a square it is in, before the nearest arrow within
/// reach, before the nearest ring within reach. Squares, arrows and rings that are
/// not visible are left out; if the middle of the gizmo is not, only squares can
/// be grabbed.
pub fn gizmo_hit_test(
    squares: &Vec<SquareView>,
    middle_visible: bool,
    arrows: &Vec<(Scalar, Axis3)>,
    rings: &Vec<(Scalar, Axis3)>,
) -> (r: Option<GizmoHandle>)
    ensures
        r == (match covered_square(squares@, 0) {
            Some(plane) => Some(GizmoHandle::TranslatePlane(plane)),
            None => if !middle_visible {
                None
            } else {
                match (
                    crate::picking::nearest_item(handle_reach(), arrows@),
                    crate::picking::nearest_item(handle_reach(), rings@),
                ) {
                    (Some(axis), _) => Some(GizmoHandle::TranslateAxis(axis)),
                    (None, Some(axis)) => Some(GizmoHandle::RotateAxis(axis)),
                    (None, None) => None,
                }
            },
        }),
{
    let mut i: usize = 0;
    while i < squares.len()
        invariant
            i <= squares@.len(),
            covered_square(squares@, 0) == covered_square(squares@, i as int),
        decreases squares@.len() - i,
    {
        let s = squares[i];
        if crate::picking::in_triangle(s.first[0], s.first[1], s.first[2])
            || crate::picking::in_triangle(s.second[0], s.second[1], s.second[2]) {
            return Some(GizmoHandle::TranslatePlane(s.plane));
        }
        i += 1;
    }
    if !middle_visible {
        return None;
    }
    let reach = Scalar::from_bits(0x4024_0000_0000_0000);
    match crate::picking::nearest(reach, arrows) {
        Some(axis) => Some(GizmoHandle::TranslateAxis(axis)),
        None => match crate::picking::nearest(reach, rings) {
            Some(axis) => Some(GizmoHandle::RotateAxis(axis)),
            None => None,
        },
    }
}

/// The step in degrees that a rotation snaps to.
pub open spec fn snap_step(ratio: Scalar, free: bool) -> u32 {
    if free {
        0
    } else if ratio.less(Scalar { bits: 0x3ff4_0000_0000_0000 }) {
        45
    } else if ratio.less(Scalar { bits: 0x4000_0000_0000_0000 }) {
        15
    } else if ratio.less(Scalar { bits: 0x4008_0000_0000_0000 }) {
        5
    } else {
        0
    }
}

/// A rotation snaps to coarse steps near the ring and to finer ones farther out: to
/// eighths of a turn up to one and a quarter of its radius, to fifteen degrees up to
/// two, to five up to three, and to none beyond or where it is to be free.
pub proof fn law_snapping_is_finer_farther_out(ratio: Scalar, farther: Scalar)
    ensures
        snap_step(ratio, true) == 0,
        !ratio.less(farther) || snap_step(farther, false) <= snap_step(ratio, false),
        ({
            let (near, middle, far) = (
                Scalar { bits: 0x3ff4_0000_0000_0000 },
                Scalar { bits: 0x4000_0000_0000_0000 },
                Scalar { bits: 0x4008_0000_0000_0000 },
            );
            &&& crate::scalar_laws::is_nearest(near, 5, 4, 52, 0x10_0000_0000_0000)
            &&& crate::scalar_laws::is_nearest(middle, 2, 1, 51, 0x8_0000_0000_0000)
            &&& crate::scalar_laws::is_nearest(far, 3, 1, 51, 0x8_0000_0000_0000)
            &&& (snap_step(ratio, false) == 45) == ratio.less(near)
            &&& (snap_step(ratio, false) == 15) == (!ratio.less(near) && ratio.less(middle))
            &&& (snap_step(ratio, false) == 5) == (!ratio.less(middle) && ratio.less(far))
            &&& !ratio.less(far) ==> snap_step(ratio, false) == 0
        }),
{
}

/// The step in degrees that a rotation snaps to: coarse near the ring, finer
/// farther out, zero for none. `ratio` is the cursor's distance from the centre
/// over the ring's radius.
pub fn snap_degrees(ratio: Scalar, free: bool) -> (r: u32)
    ensures
        r == snap_step(ratio, free),
{
    if free {
        0
    } else if ratio < Scalar::from_bits(0x3ff4_0000_0000_0000) {
        45
    } else if ratio < Scalar::from_bits(0x4000_0000_0000_0000) {
        15
    } else if ratio < Scalar::from_bits(0x4008_0000_0000_0000) {
        5
    } else {
        0
    }
}

/// Keys held down.
#[derive(Clone, Copy, PartialEq, Eq, Debug, Structural)]
pub struct Modifiers {
    pub shift: bool,
    pub command: bool,
    pub alt: bool,
}

/// A grabbed gizmo handle, with the geometry captured when it was grabbed.
#[derive(Clone, Copy, Debug)]
pub struct GizmoDrag<D> {
    pub handle: GizmoHandle,
    pub detail: D,
}

/// A mouse button.
#[derive(Clone, Copy, PartialEq, Eq, Debug, Structural)]
pub enum Button {
    Left,
    Right,
    Middle,
    Other,
}

/// Something that happened to the window. A move tells how far the cursor is
/// from where the left button went down, if it is down.
#[derive(Clone, Copy, Debug)]
pub enum Event<P> {
    Close,
    Resized { width: u32, height: u32 },
    Button { button: Button, down: bool },
    Moved { position: P, travel: Option<Scalar> },
    Wheel,
    Pinch,
    Keys(Modifiers),
    Draw,
    Other,
}

/// What is to be done about an event.
#[derive(Clone, Copy, Debug)]
pub enum Action<P, A> {
    Nothing,
    Exit,
    Resize { width: u32, height: u32 },
    /// The left button went down over the model: see what is under it.
    Press,
    /// A gizmo drag ended; keep it if it moved.
    FinishTransform { commit: bool },
    /// A push or pull ended; keep it.
    FinishManipulation,
    /// A click in place: select what is under the cursor.
    Select,
    UpdateTransform,
    UpdateManipulation { axis: A },
    Orbit { from: P, to: P },
    Pan { from: P, to: P },
    /// Move the camera as the wheel or the pinch says.
    Zoom,
    Draw,
}

/// What is remembered between events.
#[derive(Clone, Copy, Debug)]
pub struct Viewport<P, D, A> {
    /// Where the cursor was at the last camera move.
    pub last: Option<P>,
    pub orbiting: bool,
    pub panning: bool,
    pub cursor: P,
    /// Where the left button went down.
    pub left_press: Option<P>,
    /// Whether the cursor has since moved far enough to count as a drag.
    pub dragged: bool,
    /// Whether what is under the cursor may have changed.
    pub hover_dirty: bool,
    /// The axis of a push or pull that may be under way.
    pub manip_axis: Option<A>,
    pub gizmo_drag: Option<GizmoDrag<D>>,
    /// Whether geometry changed outside the panels.
    pub mesh_dirty: bool,
    pub modifiers: Modifiers,
}

/// The answer to an event: what to do, and whether to draw a frame.
#[derive(Clone, Copy, Debug)]
pub struct Reply<P, A> {
    pub action: Action<P, A>,
    pub redraw: bool,
}

/// Farther than the few pixels within which a press still is a click.
pub open spec fn beyond_click(travel: Option<Scalar>) -> bool {
    match travel {
        Some(d) => (Scalar { bits: 0x4010_0000_0000_0000 }).less(d),
        None => false,
    }
}

impl<P, D, A> Viewport<P, D, A> {
    /// The left button was released.
    pub open spec fn released(self, wants_picking: bool) -> (Self, Reply<P, A>) {
        let up = Viewport {
            orbiting: false,
            last: None,
            hover_dirty: true,
            gizmo_drag: None,
            manip_axis: None,
            left_press: None,
            dragged: false,
            ..self
        };
        if self.gizmo_drag is Some {
            (
                Viewport { mesh_dirty: self.mesh_dirty || self.dragged, ..up },
                Reply {
                    action: Action::FinishTransform { commit: self.dragged },
                    redraw: self.dragged,
                },
            )
        } else if self.manip_axis is Some && self.dragged {
            (
                Viewport { mesh_dirty: true, ..up },
                Reply { action: Action::FinishManipulation, redraw: true },
            )
        } else if self.left_press is Some && !self.dragged && wants_picking {
            (up, Reply { action: Action::Select, redraw: true })
        } else {
            (up, Reply { action: Action::Nothing, redraw: false })
        }
    }

    /// The cursor moved. A drag acts on what was grabbed; otherwise the camera
    /// follows while a button is held. While the panels use the mouse, only the
    /// position is noted.
    pub open spec fn moved(self, position: P, travel: Option<Scalar>, ui_used: bool) -> (
        Self,
        Reply<P, A>,
    ) {
        let at = Viewport {
            cursor: position,
            hover_dirty: true,
            dragged: self.dragged || (self.left_press is Some && beyond_click(travel)),
            ..self
        };
        if ui_used {
            (at, Reply { action: Action::Nothing, redraw: false })
        } else if at.gizmo_drag is Some {
            (
                Viewport { last: None, ..at },
                if at.dragged {
                    Reply { action: Action::UpdateTransform, redraw: true }
                } else {
                    Reply { action: Action::Nothing, redraw: false }
                },
            )
        } else if at.manip_axis is Some && at.dragged {
            (
                Viewport { last: None, ..at },
                Reply {
                    action: Action::UpdateManipulation { axis: at.manip_axis->Some_0 },
                    redraw: true,
                },
            )
        } else {
            (
                Viewport {
                    last: if at.orbiting || at.panning {
                        Some(position)
                    } else {
                        None
                    },
                    ..at
                },
                match at.last {
                    Some(from) => if at.orbiting {
                        Reply { action: Action::Orbit { from, to: position }, redraw: true }
                    } else if at.panning {
                        Reply { action: Action::Pan { from, to: position }, redraw: true }
                    } else {
                        Reply { action: Action::Nothing, redraw: false }
                    },
                    None => Reply { action: Action::Nothing, redraw: false },
                },
            )
        }
    }

    /// A button went down or up.
    pub open spec fn clicked(self, button: Button, down: bool, ui_used: bool, wants_picking: bool) -> (
        Self,
        Reply<P, A>,
    ) {
        let still = Reply { action: Action::<P, A>::Nothing, redraw: false };
        match button {
            Button::Left => if !down {
                self.released(wants_picking)
            } else if !ui_used {
                (self, Reply { action: Action::Press, redraw: false })
            } else {
                (self, still)
            },
            Button::Right => if !down {
                (Viewport { orbiting: false, last: None, hover_dirty: true, ..self }, still)
            } else if !ui_used {
                (Viewport { orbiting: true, ..self }, still)
            } else {
                (self, still)
            },
            Button::Middle => (
                Viewport {
                    panning: if ui_used {
                        self.panning
                    } else {
                        down
                    },
                    last: if down {
                        self.last
                    } else {
                        None
                    },
                    ..self
                },
                still,
            ),
            Button::Other => (self, still),
        }
    }

    /// What becomes of the viewport, and what is to be done.
    pub open spec fn after(self, event: Event<P>, ui_used: bool, wants_picking: bool) -> (
        Self,
        Reply<P, A>,
    ) {
        let still = Reply { action: Action::<P, A>::Nothing, redraw: false };
        match event {
            Event::Close => (self, Reply { action: Action::Exit, redraw: false }),
            Event::Resized { width, height } => if width > 0 && height > 0 {
                (self, Reply { action: Action::Resize { width, height }, redraw: true })
            } else {
                (self, still)
            },
            Event::Button { button, down } => self.clicked(button, down, ui_used, wants_picking),
            Event::Moved { position, travel } => self.moved(position, travel, ui_used),
            Event::Wheel => if ui_used {
                (self, still)
            } else {
                (
                    Viewport { hover_dirty: true, ..self },
                    Reply { action: Action::Zoom, redraw: true },
                )
            },
            Event::Pinch => if ui_used {
                (self, still)
            } else {
                (
                    Viewport { hover_dirty: true, ..self },
                    Reply { action: Action::Zoom, redraw: true },
                )
            },
            Event::Keys(modifiers) => (Viewport { modifiers, ..self }, still),
            Event::Draw => (self, Reply { action: Action::Draw, redraw: false }),
            Event::Other => (self, still),
        }
    }

    /// The left button went down on a gizmo handle.
    pub open spec fn grabbed(self, drag: GizmoDrag<D>) -> Self {
        Viewport {
            gizmo_drag: Some(drag),
            manip_axis: None,
            orbiting: false,
            left_press: Some(self.cursor),
            dragged: false,
            ..self
        }
    }

    /// The left button went down elsewhere: on a face that can be pushed along
    /// `axis`, or on nothing, which orbits.
    pub open spec fn pressed(self, axis: Option<A>) -> Self {
        Viewport {
            manip_axis: axis,
            orbiting: axis is None,
            left_press: Some(self.cursor),
            dragged: false,
            ..self
        }
    }
}

/// What a frame does about the entity under the cursor.
#[derive(Clone, Copy, PartialEq, Eq, Debug, Structural)]
pub enum HoverTask {
    /// Nothing moved: keep what is hovered.
    Keep,
    /// Hover nothing.
    Clear,
    /// Look under the cursor.
    Look,
}

/// Which gizmo handle a frame highlights.
#[derive(Clone, Copy, PartialEq, Eq, Debug, Structural)]
pub enum HandleTask {
    /// This one.
    Show(GizmoHandle),
    /// None.
    Hide,
    /// The one under the cursor.
    Look,
}

impl<P: Copy, D: Copy, A: Copy> Viewport<P, D, A> {
    /// A viewport in which nothing has happened yet.
    pub fn new(cursor: P) -> (r: Self)
        ensures
            r == (Viewport::<P, D, A> {
                last: None,
                orbiting: false,
                panning: false,
                cursor,
                left_press: None,
                dragged: false,
                hover_dirty: false,
                manip_axis: None,
                gizmo_drag: None,
                mesh_dirty: false,
                modifiers: Modifiers { shift: false, command: false, alt: false },
            }),
    {
        Viewport {
            last: None,
            orbiting: false,
            panning: false,
            cursor,
            left_press: None,
            dragged: false,
            hover_dirty: false,
            manip_axis: None,
            gizmo_drag: None,
            mesh_dirty: false,
            modifiers: Modifiers { shift: false, command: false, alt: false },
        }
    }

    fn on_release(&mut self, wants_picking: bool) -> (r: Reply<P, A>)
        ensures
            (*final(self), r) == old(self).released(wants_picking),
    {
        let dragged = self.dragged;
        let had_gizmo = self.gizmo_drag.is_some();
        let had_axis = self.manip_axis.is_some();
        let was_down = self.left_press.is_some();
        self.orbiting = false;
        self.last = None;
        self.hover_dirty = true;
        self.gizmo_drag = None;
        self.manip_axis = None;
        self.left_press = None;
        self.dragged = false;
        if had_gizmo {
            if dragged {
                self.mesh_dirty = true;
            }
            Reply { action: Action::FinishTransform { commit: dragged }, redraw: dragged }
        } else if had_axis && dragged {
            self.mesh_dirty = true;
            Reply { action: Action::FinishManipulation, redraw: true }
        } else if was_down && !dragged && wants_picking {
            Reply { action: Action::Select, redraw: true }
        } else {
            Reply { action: Action::Nothing, redraw: false }
        }
    }

    fn on_move(&mut self, position: P, travel: Option<Scalar>, ui_used: bool) -> (r: Reply<P, A>)
        ensures
            (*final(self), r) == old(self).moved(position, travel, ui_used),
    {
        self.cursor = position;
        self.hover_dirty = true;
        if self.left_press.is_some() {
            if let Some(d) = travel {
                if Scalar::from_bits(0x4010_0000_0000_0000) < d {
                    self.dragged = true;
                }
            }
        }
        if ui_used {
            return Reply { action: Action::Nothing, redraw: false };
        }
        if self.gizmo_drag.is_some() {
            self.last = None;
            return if self.dragged {
                Reply { action: Action::UpdateTransform, redraw: true }
            } else {
                Reply { action: Action::Nothing, redraw: false }
            };
        }
        if self.dragged {
            if let Some(axis) = self.manip_axis {
                self.last = None;
                return Reply { action: Action::UpdateManipulation { axis }, redraw: true };
            }
        }
        let from = self.last;
        self.last = if self.orbiting || self.panning {
            Some(position)
        } else {
            None
        };
        match from {
            Some(from) => {
                if self.orbiting {
                    Reply { action: Action::Orbit { from, to: position }, redraw: true }
                } else if self.panning {
                    Reply { action: Action::Pan { from, to: position }, redraw: true }
                } else {
                    Reply { action: Action::Nothing, redraw: false }
                }
            },
            None => Reply { action: Action::Nothing, redraw: false },
        }
    }

    fn on_button(&mut self, button: Button, down: bool, ui_used: bool, wants_picking: bool) -> (r:
        Reply<P, A>)
        ensures
            (*final(self), r) == old(self).clicked(button, down, ui_used, wants_picking),
    {
        let still = Reply { action: Action::Nothing, redraw: false };
        match button {
            Button::Left => {
                if !down {
                    self.on_release(wants_picking)
                } else if !ui_used {
                    Reply { action: Action::Press, redraw: false }
                } else {
                    still
                }
            },
            Button::Right => {
                if !down {
                    self.orbiting = false;
                    self.last = None;
                    self.hover_dirty = true;
                } else if !ui_used {
                    self.orbiting = true;
                }
                still
            },
            Button::Middle => {
                if !ui_used {
                    self.panning = down;
                }
                if !down {
                    self.last = None;
                }
                still
            },
            Button::Other => still,
        }
    }

    /// Take note of an event and say what is to be done. `ui_used` tells that
    /// the panels used the event themselves, and `wants_picking` that a click
    /// selects.
    pub fn handle(&mut self, event: Event<P>, ui_used: bool, wants_picking: bool) -> (r: Reply<
        P,
        A,
    >)
        ensures
            (*final(self), r) == old(self).after(event, ui_used, wants_picking),
    {
        let still = Reply { action: Action::Nothing, redraw: false };
        match event {
            Event::Close => Reply { action: Action::Exit, redraw: false },
            Event::Resized { width, height } => {
                if width > 0 && height > 0 {
                    Reply { action: Action::Resize { width, height }, redraw: true }
                } else {
                    still
                }
            },
            Event::Button { button, down } => self.on_button(button, down, ui_used, wants_picking),
            Event::Moved { position, travel } => self.on_move(position, travel, ui_used),
            Event::Wheel => {
                if ui_used {
                    still
                } else {
                    self.hover_dirty = true;
                    Reply { action: Action::Zoom, redraw: true }
                }
            },
            Event::Pinch => {
                if ui_used {
                    still
                } else {
                    self.hover_dirty = true;
                    Reply { action: Action::Zoom, redraw: true }
                }
            },
            Event::Keys(modifiers) => {
                self.modifiers = modifiers;
                still
            },
            Event::Draw => Reply { action: Action::Draw, redraw: false },
            Event::Other => still,
        }
    }

    /// The press was on a gizmo handle.
    pub fn grab(&mut self, drag: GizmoDrag<D>)
        ensures
            *final(self) == old(self).grabbed(drag),
    {
        self.gizmo_drag = Some(drag);
        self.manip_axis = None;
        self.orbiting = false;
        self.left_press = Some(self.cursor);
        self.dragged = false;
    }

    /// The press was elsewhere, on a face that can be pushed along `axis` or on
    /// nothing of the kind.
    pub fn press(&mut self, axis: Option<A>)
        ensures
            *final(self) == old(self).pressed(axis),
    {
        self.orbiting = axis.is_none();
        self.manip_axis = axis;
        self.left_press = Some(self.cursor);
        self.dragged = false;
    }

    /// The geometry of the gizmo drag moved on.
    pub fn drag_to(&mut self, detail: D)
        ensures
            *final(self) == (Viewport {
                gizmo_drag: match old(self).gizmo_drag {
                    Some(g) => Some(GizmoDrag { handle: g.handle, detail }),
                    None => None,
                },
                ..*old(self)
            }),
    {
        if let Some(g) = self.gizmo_drag {
            self.gizmo_drag = Some(GizmoDrag { handle: g.handle, detail });
        }
    }

    /// A drag was applied to the model.
    pub fn applied(&mut self, changed: bool)
        ensures
            *final(self) == (Viewport { mesh_dirty: old(self).mesh_dirty || changed, ..*old(self) }),
    {
        if changed {
            self.mesh_dirty = true;
        }
    }

    /// Whether this frame has to show a new mesh; asking settles it.
    pub fn take_mesh_request(&mut self, changed: bool) -> (r: bool)
        ensures
            r == (changed || old(self).mesh_dirty),
            *final(self) == (Viewport { mesh_dirty: false, ..*old(self) }),
    {
        let r = changed || self.mesh_dirty;
        self.mesh_dirty = false;
        r
    }

    /// What this frame does about the entity under the cursor; asking settles
    /// it. Nothing is hovered during a drag or over a panel.
    pub fn take_hover(&mut self, wants_picking: bool, over_ui: bool) -> (r: HoverTask)
        ensures
            r == (if !old(self).hover_dirty {
                HoverTask::Keep
            } else if wants_picking && !old(self).dragged && !over_ui {
                HoverTask::Look
            } else {
                HoverTask::Clear
            }),
            *final(self) == (Viewport { hover_dirty: false, ..*old(self) }),
    {
        if !self.hover_dirty {
            return HoverTask::Keep;
        }
        self.hover_dirty = false;
        if wants_picking && !self.dragged && !over_ui {
            HoverTask::Look
        } else {
            HoverTask::Clear
        }
    }

    /// Which gizmo handle to highlight: the one being dragged, or the one under
    /// the cursor unless a panel is.
    pub fn handle_task(&self, over_ui: bool) -> (r: HandleTask)
        ensures
            r == (match self.gizmo_drag {
                Some(g) => HandleTask::Show(g.handle),
                None => if over_ui {
                    HandleTask::Hide
                } else {
                    HandleTask::Look
                },
            }),
    {
        match self.gizmo_drag {
            Some(g) => HandleTask::Show(g.handle),
            None => {
                if over_ui {
                    HandleTask::Hide
                } else {
                    HandleTask::Look
                }
            },
        }
    }

    /// The ring being turned, if one is: then a protractor is shown.
    pub fn turning(&self) -> (r: Option<(Axis3, D)>)
        ensures
            r == (match self.gizmo_drag {
                Some(GizmoDrag { handle: GizmoHandle::RotateAxis(axis), detail }) => if self.dragged {
                    Some((axis, detail))
                } else {
                    None
                },
                _ => None,
            }),
    {
        if !self.dragged {
            return None;
        }
        match self.gizmo_drag {
            Some(GizmoDrag { handle: GizmoHandle::RotateAxis(axis), detail }) => Some((axis, detail)),
            _ => None,
        }
    }

    /// Whether a click adds to the selection.
    pub fn additive(&self) -> (r: bool)
        ensures
            r == (self.modifiers.shift || self.modifiers.command),
    {
        self.modifiers.shift || self.modifiers.command
    }
}

/// The face to start pushing, and where: only if something was picked and the
/// place on it is known.
pub fn push_target<W: Copy>(pick: Option<Pick>, point: Option<W>) -> (r: Option<(Pick, W)>)
    ensures
        r == (match (pick, point) {
            (Some(p), Some(w)) => Some((p, w)),
            _ => None,
        }),
{
    match (pick, point) {
        (Some(p), Some(w)) => Some((p, w)),
        _ => None,
    }
}

/// Releasing the left button ends every drag.
pub proof fn law_release_ends_every_drag<P, D, A>(v: Viewport<P, D, A>, wants_picking: bool)
    ensures
        ({
            let after = v.released(wants_picking).0;
            &&& after.gizmo_drag is None
            &&& after.manip_axis is None
            &&& after.left_press is None
            &&& !after.dragged
            &&& !after.orbiting
        }),
{
}

/// A drag is kept only if it left the dead zone, and only a press that did not
/// leave it selects.
pub proof fn law_clicks_select_and_drags_commit<P, D, A>(
    v: Viewport<P, D, A>,
    wants_picking: bool,
)
    ensures
        match v.released(wants_picking).1.action {
            Action::FinishTransform { commit } => commit == v.dragged && v.gizmo_drag is Some,
            Action::FinishManipulation => v.dragged && v.manip_axis is Some,
            Action::Select => !v.dragged && v.left_press is Some && v.gizmo_drag is None,
            _ => true,
        },
{
}

/// While a gizmo handle is held, and while a face is being pushed, moving the
/// mouse never moves the camera.
pub proof fn law_drags_hold_the_camera<P, D, A>(
    v: Viewport<P, D, A>,
    position: P,
    travel: Option<Scalar>,
    ui_used: bool,
)
    requires
        v.gizmo_drag is Some || (v.manip_axis is Some && v.dragged),
    ensures
        !(v.moved(position, travel, ui_used).1.action is Orbit),
        !(v.moved(position, travel, ui_used).1.action is Pan),
{
}

/// What the panels use, the viewport leaves alone: a press or a scroll used by a
/// panel changes nothing and starts nothing.
pub proof fn law_panels_come_first<P, D, A>(
    v: Viewport<P, D, A>,
    event: Event<P>,
    wants_picking: bool,
)
    requires
        event is Wheel || event is Pinch || (event matches Event::Button { button, down } && down && (
        button == Button::Left || button == Button::Right || button == Button::Middle)),
    ensures
        v.after(event, true, wants_picking).0 == v,
        v.after(event, true, wants_picking).1.action is Nothing,
{
}

/// Once a press has become a drag it stays one until the button is released.
pub proof fn law_a_drag_stays_a_drag<P, D, A>(
    v: Viewport<P, D, A>,
    position: P,
    travel: Option<Scalar>,
    ui_used: bool,
)
    requires
        v.dragged,
    ensures
        v.moved(position, travel, ui_used).0.dragged,
{
}

/// The square found is the first one that the cursor is in.
pub proof fn law_the_first_square_is_found(squares: Seq<SquareView>, from: int)
    requires
        0 <= from,
    ensures
        match covered_square(squares, from) {
            Some(plane) => exists|i: int|
                {
                    &&& from <= i < squares.len()
                    &&& #[trigger] covered(squares[i])
                    &&& squares[i].plane == plane
                    &&& forall|j: int| from <= j < i ==> !#[trigger] covered(squares[j])
                },
            None => forall|j: int| from <= j < squares.len() ==> !#[trigger] covered(squares[j]),
        },
    decreases squares.len() - from,
{
    if from < squares.len() && !covered(squares[from]) {
        law_the_first_square_is_found(squares, from + 1);
        if let Some(plane) = covered_square(squares, from + 1) {
            let i = choose|i: int|
                {
                    &&& from + 1 <= i < squares.len()
                    &&& #[trigger] covered(squares[i])
                    &&& squares[i].plane == plane
                    &&& forall|j: int| from + 1 <= j < i ==> !#[trigger] covered(squares[j])
                };
            assert(covered(squares[i]));
        }
    } else if from < squares.len() {
        assert(covered(squares[from]));
    }
}

/// What moving the mouse does: the cursor is where it was moved to; a held handle is
/// dragged and a held face pushed along its own axis, once the press has become a drag;
/// else the camera turns or pans from where the cursor was at its last move to where it
/// is now, while a button for that is held.
pub proof fn law_what_moving_does<P, D, A>(
    v: Viewport<P, D, A>,
    position: P,
    travel: Option<Scalar>,
)
    ensures
        ({
            let (now, reply) = v.moved(position, travel, false);
            let dragged = v.dragged || (v.left_press is Some && (travel matches Some(d) && (Scalar {
                bits: 0x4010_0000_0000_0000,
            }).less(d)));
            &&& now.cursor == position
            &&& now.hover_dirty
            &&& now.dragged == dragged
            &&& now.gizmo_drag == v.gizmo_drag && now.manip_axis == v.manip_axis
            &&& now.orbiting == v.orbiting && now.panning == v.panning
            &&& now.left_press == v.left_press && now.modifiers == v.modifiers
            &&& if v.gizmo_drag is Some {
                reply.action is UpdateTransform == dragged && reply.redraw == dragged && (!dragged
                    ==> reply.action is Nothing) && now.last is None
            } else if v.manip_axis is Some && dragged {
                reply.action matches Action::UpdateManipulation { axis } && v.manip_axis == Some(
                    axis,
                ) && reply.redraw && now.last is None
            } else {
                &&& now.last == (if v.orbiting || v.panning {
                    Some(position)
                } else {
                    None
                })
                &&& match v.last {
                    Some(p) => if v.orbiting {
                        reply.action matches Action::Orbit { from, to } && from == p && to
                            == position && reply.redraw
                    } else if v.panning {
                        reply.action matches Action::Pan { from, to } && from == p && to == position
                            && reply.redraw
                    } else {
                        reply.action is Nothing && !reply.redraw
                    },
                    None => reply.action is Nothing && !reply.redraw,
                }
            }
        }),
        v.moved(position, travel, true).0.cursor == position,
        v.moved(position, travel, true).1.action is Nothing,
{
}

/// What letting go of the left button does: a held handle is let go of, kept if it was
/// dragged; a pushed face is kept; and a press that stayed in place selects, where
/// there is something to select.
pub proof fn law_what_letting_go_does<P, D, A>(v: Viewport<P, D, A>, wants_picking: bool)
    ensures
        ({
            let (now, reply) = v.released(wants_picking);
            &&& now.cursor == v.cursor && now.panning == v.panning && now.modifiers == v.modifiers
            &&& now.hover_dirty && now.last is None
            &&& v.gizmo_drag is Some ==> (reply.action matches Action::FinishTransform { commit }
                && commit == v.dragged)
            &&& v.gizmo_drag is None && v.manip_axis is Some && v.dragged
                ==> reply.action is FinishManipulation
            &&& v.gizmo_drag is None && v.left_press is Some && !v.dragged && wants_picking
                ==> reply.action is Select
            &&& v.gizmo_drag is None && !(v.manip_axis is Some && v.dragged) && !(
            v.left_press is Some && !v.dragged && wants_picking) ==> reply.action is Nothing
            &&& v.dragged && (v.gizmo_drag is Some || v.manip_axis is Some) ==> now.mesh_dirty
            &&& !v.dragged ==> now.mesh_dirty == v.mesh_dirty
        }),
{
}

/// What the buttons do where no panel uses them: the left one presses, the right one
/// turns the camera while it is down and the middle one pans it.
pub proof fn law_what_the_buttons_do<P, D, A>(v: Viewport<P, D, A>, wants_picking: bool)
    ensures
        v.clicked(Button::Left, true, false, wants_picking).1.action is Press,
        v.clicked(Button::Left, true, false, wants_picking).0 == v,
        v.clicked(Button::Left, false, false, wants_picking) == v.released(wants_picking),
        v.clicked(Button::Right, true, false, wants_picking).0 == (Viewport {
            orbiting: true,
            ..v
        }),
        !v.clicked(Button::Right, false, false, wants_picking).0.orbiting,
        v.clicked(Button::Right, false, false, wants_picking).0.last is None,
        v.clicked(Button::Middle, true, false, wants_picking).0 == (Viewport { panning: true, ..v }),
        !v.clicked(Button::Middle, false, false, wants_picking).0.panning,
        v.clicked(Button::Middle, false, false, wants_picking).0.last is None,
        v.clicked(Button::Other, true, false, wants_picking).0 == v,
        v.clicked(Button::Right, true, false, wants_picking).1.action is Nothing,
        v.clicked(Button::Middle, true, false, wants_picking).1.action is Nothing,
{
}

/// Each event comes to what it is for: closing exits, a new size is taken on unless it
/// is empty, wheel and pinch zoom, keys are noted, and a frame is drawn when it is due.
pub proof fn law_events_come_to_what_they_are_for<P, D, A>(
    v: Viewport<P, D, A>,
    width: u32,
    height: u32,
    keys: Modifiers,
    ui_used: bool,
    wants_picking: bool,
)
    ensures
        v.after(Event::Close, ui_used, wants_picking).1.action is Exit,
        ({
            let (now, reply) = v.after(Event::Resized { width, height }, ui_used, wants_picking);
            &&& now == v
            &&& if width > 0 && height > 0 {
                reply.action matches Action::Resize { width: w, height: h } && w == width && h
                    == height && reply.redraw
            } else {
                reply.action is Nothing
            }
        }),
        v.after(Event::Wheel, false, wants_picking).1.action is Zoom,
        v.after(Event::Pinch, false, wants_picking).1.action is Zoom,
        v.after(Event::Draw, ui_used, wants_picking).1.action is Draw,
        v.after(Event::Draw, ui_used, wants_picking).0 == v,
        v.after(Event::Keys(keys), ui_used, wants_picking).0 == (Viewport { modifiers: keys, ..v }),
        v.after(Event::Other, ui_used, wants_picking).1.action is Nothing,
{
}

/// A press takes hold of one thing: a handle, or a face with its axis, or, of neither,
/// the camera. The press is remembered where the cursor is, and is no drag yet.
pub proof fn law_a_press_takes_hold_of_one_thing<P, D, A>(
    v: Viewport<P, D, A>,
    drag: GizmoDrag<D>,
    axis: Option<A>,
)
    ensures
        ({
            let now = v.grabbed(drag);
            &&& now.gizmo_drag == Some(drag) && now.manip_axis is None && !now.orbiting
            &&& now.left_press == Some(v.cursor) && !now.dragged
        }),
        ({
            let now = v.pressed(axis);
            &&& now.manip_axis == axis && now.orbiting == axis is None
            &&& now.gizmo_drag == v.gizmo_drag
            &&& now.left_press == Some(v.cursor) && !now.dragged
        }),
{
}

} // verus!
