//! What is selected and hovered in the viewport.
//!
//! The selection is a set kept homogeneous: all faces or all edges. A plain
//! click replaces it, an additive click toggles one entity in or out, and picking
//! the other kind replaces it, since no operation takes both. The plane of a lone
//! selected face is kept, for drawing on it.

use crate::sketch::SketchPlane;
use std::collections::HashMap;
use vstd::prelude::*;
use vstd::std_specs::cmp::{PartialEqSpec, PartialEqSpecImpl};

verus! {

broadcast use vstd::std_specs::hash::group_hash_axioms;

/// A selectable entity, by an id that holds until the model is rebuilt.
#[derive(Clone, Copy, Eq, Hash, Debug)]
pub enum Pick {
    Face(u32),
    Edge(u32),
}

impl PartialEq for Pick {
    fn eq(&self, other: &Pick) -> (r: bool) {
        match (*self, *other) {
            (Pick::Face(a), Pick::Face(b)) => a == b,
            (Pick::Edge(a), Pick::Edge(b)) => a == b,
            _ => false,
        }
    }
}

impl PartialEqSpecImpl for Pick {
    open spec fn obeys_eq_spec() -> bool {
        true
    }

    open spec fn eq_spec(&self, other: &Pick) -> bool {
        *self == *other
    }
}

impl Pick {
    /// Both are faces or both are edges.
    pub open spec fn like(self, other: Pick) -> bool {
        (self is Face) == (other is Face)
    }
}

/// What is selected, what is under the cursor, and the plane of a lone selected
/// face.
#[derive(Debug)]
pub struct Selection {
    /// The clicked entities, in click order.
    pub selected: Vec<Pick>,
    /// The entity under the cursor.
    pub hovered: Option<Pick>,
    /// The planes of the selected planar faces, by the faces' numbers.
    pub planes: HashMap<u32, SketchPlane>,
    /// The plane of the selected face, where exactly one planar face is
    /// selected.
    pub face_plane: Option<SketchPlane>,
}

/// What a [`Selection`] holds.
#[verifier::ext_equal]
pub struct SelectionModel {
    pub selected: Seq<Pick>,
    pub hovered: Option<Pick>,
    pub planes: Map<u32, SketchPlane>,
    pub face_plane: Option<SketchPlane>,
}

impl View for Selection {
    type V = SelectionModel;

    open spec fn view(&self) -> SelectionModel {
        SelectionModel {
            selected: self.selected@,
            hovered: self.hovered,
            planes: self.planes@,
            face_plane: self.face_plane,
        }
    }
}

/// The numbers of the selected faces.
pub open spec fn live_faces(selected: Seq<Pick>) -> Set<u32> {
    Set::new(|g: u32| selected.contains(Pick::Face(g)))
}

impl SelectionModel {
    /// Nothing selected or hovered.
    pub open spec fn empty() -> SelectionModel {
        SelectionModel { selected: seq![], hovered: None, planes: Map::empty(), face_plane: None }
    }

    /// All entities are of one kind and none occurs twice; planes are kept of
    /// selected faces only, and a lone face's is at hand.
    pub open spec fn well_formed(self) -> bool {
        &&& self.planes.dom().subset_of(live_faces(self.selected))
        &&& self.face_plane == self.lone_plane()
        &&& self.selected.no_duplicates()
        &&& forall|i: int, j: int|
            #![trigger self.selected[i], self.selected[j]]
            0 <= i < self.selected.len() && 0 <= j < self.selected.len() ==> self.selected[i].like(
                self.selected[j],
            )
    }

    /// Exactly one face is selected.
    pub open spec fn lone_face(self) -> bool {
        self.selected.len() == 1 && self.selected[0] is Face
    }

    /// The entities selected after a click on `pick`.
    pub open spec fn picked(self, pick: Option<Pick>, additive: bool) -> Seq<Pick> {
        match pick {
            None => if additive {
                self.selected
            } else {
                seq![]
            },
            Some(p) => if additive && (self.selected.len() == 0 || self.selected[0].like(p)) {
                if self.selected.contains(p) {
                    self.selected.remove_value(p)
                } else {
                    self.selected.push(p)
                }
            } else {
                seq![p]
            },
        }
    }

    /// The plane of a face, if it is selected and planar.
    pub open spec fn plane_of(self, face: u32) -> Option<SketchPlane> {
        if self.planes.contains_key(face) {
            Some(self.planes[face])
        } else {
            None
        }
    }

    /// The plane of the selected face, if exactly one is selected and it is
    /// planar.
    pub open spec fn lone_plane(self) -> Option<SketchPlane> {
        if self.selected.len() == 1 {
            match self.selected[0] {
                Pick::Face(g) => self.plane_of(g),
                Pick::Edge(_) => None,
            }
        } else {
            None
        }
    }

    /// The planes known after a click on `pick`, a face of which has the given
    /// plane, or none where it is not planar.
    pub open spec fn told(self, pick: Option<Pick>, plane: Option<SketchPlane>) -> Map<
        u32,
        SketchPlane,
    > {
        match (pick, plane) {
            (Some(Pick::Face(g)), Some(p)) => self.planes.insert(g, p),
            (Some(Pick::Face(g)), None) => self.planes.remove(g),
            _ => self.planes,
        }
    }

    /// The selection after a click on `pick`. Each selected face keeps the plane
    /// it was clicked with, and an additive click on nothing changes nothing.
    pub open spec fn clicked(
        self,
        pick: Option<Pick>,
        additive: bool,
        plane: Option<SketchPlane>,
    ) -> SelectionModel {
        if pick is None && additive {
            self
        } else {
            let selected = self.picked(pick, additive);
            let after = SelectionModel {
                selected,
                planes: self.told(pick, plane).restrict(live_faces(selected)),
                ..self
            };
            SelectionModel { face_plane: after.lone_plane(), ..after }
        }
    }
}

/// Both are faces or both are edges.
fn same_kind(a: Pick, b: Pick) -> (r: bool)
    ensures
        r == a.like(b),
{
    match (a, b) {
        (Pick::Face(_), Pick::Face(_)) => true,
        (Pick::Edge(_), Pick::Edge(_)) => true,
        _ => false,
    }
}

/// Comparing values of `T` tells whether they are the same.
pub open spec fn told_apart<T: PartialEq>() -> bool {
    &&& T::obeys_eq_spec()
    &&& forall|a: T, b: T| #[trigger] a.eq_spec(&b) == (a == b)
}

/// Put an item in or take it out: its first occurrence leaves, or it joins at
/// the end.
pub fn toggle<T: PartialEq>(v: &mut Vec<T>, item: T)
    requires
        told_apart::<T>(),
    ensures
        final(v)@ == (if old(v)@.contains(item) {
            old(v)@.remove_value(item)
        } else {
            old(v)@.push(item)
        }),
{
    let ghost all = v@;
    let mut i: usize = 0;
    while i < v.len()
        invariant
            told_apart::<T>(),
            i <= v@.len(),
            v@ == all,
            all == old(v)@,
            forall|j: int| 0 <= j < i ==> #[trigger] v@[j] != item,
        decreases v@.len() - i,
    {
        if v[i] == item {
            proof {
                all.index_of_first_ensures(item);
                assert(all[i as int] == item);
            }
            v.remove(i);
            return;
        }
        i += 1;
    }
    v.push(item);
}

impl Clone for Selection {
    fn clone(&self) -> (r: Selection)
        ensures
            r@ == self@,
    {
        Selection {
            selected: crate::sketch2d::copied(&self.selected),
            hovered: self.hovered,
            planes: self.planes.clone(),
            face_plane: self.face_plane,
        }
    }
}

impl Default for Selection {
    fn default() -> (r: Selection)
        ensures
            r@ == SelectionModel::empty(),
    {
        Selection {
            selected: Vec::new(),
            hovered: None,
            planes: HashMap::new(),
            face_plane: None,
        }
    }
}

impl Selection {
    /// Apply a click. An additive click toggles `pick` in the set, a plain one
    /// replaces the set, and so does a pick of the other kind. A plain click on
    /// empty space clears the set; an additive one changes nothing. `face_plane`
    /// is the clicked face's plane, kept for as long as the face is selected.
    pub fn select(
        &mut self,
        pick: Option<Pick>,
        additive: bool,
        face_plane: Option<SketchPlane>,
    )
        ensures
            final(self)@ == old(self)@.clicked(pick, additive, face_plane),
    {
        match pick {
            None => {
                if additive {
                    return;
                }
                self.selected.clear();
            },
            Some(p) => {
                let homogeneous = self.selected.len() == 0 || same_kind(self.selected[0], p);
                if additive && homogeneous {
                    toggle(&mut self.selected, p);
                } else {
                    self.selected = vec![p];
                }
                if let Pick::Face(g) = p {
                    match face_plane {
                        Some(plane) => {
                            self.planes.insert(g, plane);
                        },
                        None => {
                            self.planes.remove(&g);
                        },
                    }
                }
            },
        }
        assert(self@.selected =~= old(self)@.picked(pick, additive));
        assert(self@.planes =~= old(self)@.told(pick, face_plane));
        self.keep_live_planes();
        self.face_plane = self.lone_plane();
    }

    /// The plane of the selected face, if exactly one is selected and it is
    /// planar.
    fn lone_plane(&self) -> (r: Option<SketchPlane>)
        ensures
            r == self@.lone_plane(),
    {
        if self.selected.len() != 1 {
            return None;
        }
        match self.selected[0] {
            Pick::Face(g) => match self.planes.get(&g) {
                Some(plane) => Some(*plane),
                None => None,
            },
            Pick::Edge(_) => None,
        }
    }

    /// Forget the planes of faces that are no longer selected.
    fn keep_live_planes(&mut self)
        ensures
            final(self)@ == (SelectionModel {
                planes: old(self)@.planes.restrict(live_faces(old(self)@.selected)),
                ..old(self)@
            }),
    {
        let mut kept: HashMap<u32, SketchPlane> = HashMap::new();
        let mut i: usize = 0;
        proof {
            assert(kept@ =~= self@.planes.restrict(live_faces(self@.selected.take(0))));
        }
        while i < self.selected.len()
            invariant
                i <= self@.selected.len(),
                kept@ == self@.planes.restrict(live_faces(self@.selected.take(i as int))),
            decreases self@.selected.len() - i,
        {
            let ghost (now, next) = (self@.selected.take(i as int), self@.selected.take(i + 1));
            proof {
                assert(next =~= now.push(self@.selected[i as int]));
                assert forall|p: Pick| #[trigger] next.contains(p) <==> now.contains(p) || p
                    == self@.selected[i as int] by {
                    assert(next[i as int] == self@.selected[i as int]);
                    if now.contains(p) {
                        let k = now.index_of(p);
                        assert(next[k] == p);
                    }
                    if next.contains(p) && p != self@.selected[i as int] {
                        let k = next.index_of(p);
                        assert(now[k] == p);
                    }
                }
            }
            if let Pick::Face(g) = self.selected[i] {
                if let Some(plane) = self.planes.get(&g) {
                    kept.insert(g, *plane);
                }
            }
            proof {
                assert(kept@ =~= self@.planes.restrict(live_faces(next)));
            }
            i += 1;
        }
        proof {
            assert(self@.selected.take(i as int) =~= self@.selected);
        }
        self.planes = kept;
    }

    /// Set the entity under the cursor.
    pub fn hover(&mut self, pick: Option<Pick>)
        ensures
            final(self)@ == (SelectionModel { hovered: pick, ..old(self)@ }),
    {
        self.hovered = pick;
    }

    /// Select and hover nothing.
    pub fn clear(&mut self)
        ensures
            final(self)@ == SelectionModel::empty(),
    {
        self.selected.clear();
        self.hovered = None;
        self.planes.clear();
        self.face_plane = None;
    }

    /// The selected entities, in click order.
    pub fn selected(&self) -> (r: &[Pick])
        ensures
            r@ == self@.selected,
    {
        self.selected.as_slice()
    }

    /// The entity selected first: the target of operations that take one.
    pub fn primary(&self) -> (r: Option<Pick>)
        ensures
            r == (if self@.selected.len() > 0 {
                Some(self@.selected[0])
            } else {
                None
            }),
    {
        if self.selected.len() > 0 {
            Some(self.selected[0])
        } else {
            None
        }
    }

    /// Whether nothing is selected.
    pub fn is_empty(&self) -> (r: bool)
        ensures
            r == (self@.selected.len() == 0),
    {
        self.selected.len() == 0
    }

    /// Whether there is a selection and it is all edges, so it can be filleted.
    pub fn is_edges(&self) -> (r: bool)
        ensures
            r == (self@.selected.len() > 0 && forall|i: int|
                0 <= i < self@.selected.len() ==> #[trigger] self@.selected[i] is Edge),
    {
        let mut i: usize = 0;
        while i < self.selected.len()
            invariant
                i <= self.selected@.len(),
                forall|j: int| 0 <= j < i ==> #[trigger] self.selected@[j] is Edge,
            decreases self.selected@.len() - i,
        {
            match self.selected[i] {
                Pick::Edge(_) => {},
                Pick::Face(_) => {
                    assert(!(self@.selected[i as int] is Edge));
                    return false;
                },
            }
            i += 1;
        }
        self.selected.len() > 0
    }

    /// Whether exactly one face is selected.
    pub fn is_lone_face(&self) -> (r: bool)
        ensures
            r == self@.lone_face(),
    {
        self.selected.len() == 1 && match self.selected[0] {
            Pick::Face(_) => true,
            Pick::Edge(_) => false,
        }
    }

    /// Whether a sketch can start on the selected face.
    pub fn can_sketch_on_face(&self) -> (r: bool)
        ensures
            r == self@.face_plane is Some,
    {
        self.face_plane.is_some()
    }
}

/// The set stays homogeneous and free of repeats, whatever is clicked, and a plane
/// at hand is the one that the only selected face was clicked with: the click's own
/// if the face was clicked, the one it had if not.
pub proof fn law_selection_stays_homogeneous(
    s: SelectionModel,
    pick: Option<Pick>,
    additive: bool,
    plane: Option<SketchPlane>,
)
    requires
        s.well_formed(),
    ensures
        s.clicked(pick, additive, plane).well_formed(),
        s.clicked(pick, additive, plane).face_plane is Some ==> s.clicked(
            pick,
            additive,
            plane,
        ).lone_face(),
        forall|g: u32| #[trigger]
            s.clicked(pick, additive, plane).plane_of(g) == (if !s.clicked(
                pick,
                additive,
                plane,
            ).selected.contains(Pick::Face(g)) {
                None
            } else if pick == Some(Pick::Face(g)) {
                plane
            } else {
                s.plane_of(g)
            }),
{
    let clicked = s.clicked(pick, additive, plane);
    match pick {
        Some(p) => {
            s.selected.index_of_first_ensures(p);
            if additive && s.selected.contains(p) {
                let i = s.selected.index_of_first(p)->Some_0;
                let after = s.selected.remove(i);
                assert forall|j: int| 0 <= j < after.len() implies #[trigger] after[j] == (if j < i {
                    s.selected[j]
                } else {
                    s.selected[j + 1]
                }) by {}
            } else if additive && s.selected.len() > 0 && s.selected[0].like(p) {
                let after = s.selected.push(p);
                assert forall|j: int| 0 <= j < s.selected.len() implies #[trigger] after[j]
                    == s.selected[j] && after[j].like(p) by {
                    assert(s.selected[j].like(s.selected[0]));
                }
            }
        },
        None => {},
    }
    assert forall|g: u32| #[trigger] clicked.plane_of(g) == (if !clicked.selected.contains(
        Pick::Face(g),
    ) {
        None
    } else if pick == Some(Pick::Face(g)) {
        plane
    } else {
        s.plane_of(g)
    }) by {
        if pick is None && additive && s.planes.contains_key(g) {
            assert(live_faces(s.selected).contains(g));
        }
    }
}

/// What a click selects: a plain one just what was clicked, or nothing; one with the
/// modifier puts what was clicked in or takes it out and leaves the rest, in order; one
/// with the modifier on the other kind just what was clicked.
pub proof fn law_what_a_click_selects(
    s: SelectionModel,
    p: Pick,
    q: Pick,
    plane: Option<SketchPlane>,
)
    requires
        s.well_formed(),
    ensures
        s.clicked(Some(p), false, plane).selected == seq![p],
        s.clicked(None, false, plane).selected.len() == 0,
        s.clicked(None, true, plane) == s,
        ({
            let after = s.clicked(Some(p), true, plane).selected;
            let mixed = s.selected.len() > 0 && (s.selected[0] is Face) != (p is Face);
            if mixed {
                after == seq![p]
            } else {
                &&& after.contains(p) == !s.selected.contains(p)
                &&& q != p ==> after.contains(q) == s.selected.contains(q)
                &&& !s.selected.contains(p) ==> after == s.selected.push(p)
                &&& s.selected.contains(p) ==> exists|i: int|
                    0 <= i < s.selected.len() && #[trigger] s.selected[i] == p && after
                        == s.selected.remove(i)
            }
        }),
        s.clicked(Some(p), true, plane).hovered == s.hovered,
        s.clicked(Some(p), false, plane).hovered == s.hovered,
{
    s.selected.index_of_first_ensures(p);
    let after = s.clicked(Some(p), true, plane).selected;
    let mixed = s.selected.len() > 0 && (s.selected[0] is Face) != (p is Face);
    if !mixed {
        if s.selected.contains(p) {
            let i = s.selected.index_of_first(p)->Some_0;
            assert(s.selected[i] == p);
            assert(after == s.selected.remove(i));
            assert forall|j: int| 0 <= j < after.len() implies #[trigger] after[j] == (if j < i {
                s.selected[j]
            } else {
                s.selected[j + 1]
            }) by {}
            if q != p && s.selected.contains(q) {
                let k = s.selected.index_of(q);
                let now = if k < i {
                    k
                } else {
                    k - 1
                };
                assert(after[now] == q);
            }
            if after.contains(q) {
                let k = after.index_of(q);
                assert(s.selected.contains(q)) by {
                    if k < i {
                        assert(s.selected[k] == q);
                    } else {
                        assert(s.selected[k + 1] == q);
                    }
                }
            }
            if after.contains(p) {
                let k = after.index_of(p);
                if k >= i {
                    assert(s.selected[k + 1] == p && s.selected[i] == p);
                } else {
                    assert(s.selected[k] == p);
                }
            }
        } else {
            assert(after[s.selected.len() as int] == p);
            if s.selected.contains(q) {
                let k = s.selected.index_of(q);
                assert(after[k] == q);
            }
            if q != p && after.contains(q) {
                let k = after.index_of(q);
                assert(s.selected[k] == q);
            }
        }
    }
}

/// A click: what was clicked, whether with the modifier, and the plane of a clicked
/// planar face.
pub struct Click {
    pub pick: Option<Pick>,
    pub additive: bool,
    pub plane: Option<SketchPlane>,
}

/// The selection after some clicks, from an empty one on.
pub open spec fn after_clicks(clicks: Seq<Click>) -> SelectionModel
    decreases clicks.len(),
{
    if clicks.len() == 0 {
        SelectionModel::empty()
    } else {
        let last = clicks.last();
        after_clicks(clicks.drop_last()).clicked(last.pick, last.additive, last.plane)
    }
}

/// The plane given with the last click on a face.
pub open spec fn last_plane(clicks: Seq<Click>, face: u32) -> Option<SketchPlane>
    decreases clicks.len(),
{
    if clicks.len() == 0 {
        None
    } else if clicks.last().pick == Some(Pick::Face(face)) {
        clicks.last().plane
    } else {
        last_plane(clicks.drop_last(), face)
    }
}

/// After any clicks, a sketch can start exactly where a single planar face is
/// selected, and on that face's own plane: the one given when it was last clicked.
pub proof fn law_a_kept_plane_is_the_faces_own(clicks: Seq<Click>)
    ensures
        after_clicks(clicks).well_formed(),
        after_clicks(clicks).face_plane == (if after_clicks(clicks).lone_face() {
            last_plane(clicks, after_clicks(clicks).selected[0]->Face_0)
        } else {
            None
        }),
        forall|g: u32| #[trigger]
            after_clicks(clicks).plane_of(g) == (if after_clicks(clicks).selected.contains(
                Pick::Face(g),
            ) {
                last_plane(clicks, g)
            } else {
                None
            }),
    decreases clicks.len(),
{
    let now = after_clicks(clicks);
    if clicks.len() > 0 {
        let before = after_clicks(clicks.drop_last());
        let last = clicks.last();
        law_a_kept_plane_is_the_faces_own(clicks.drop_last());
        law_selection_stays_homogeneous(before, last.pick, last.additive, last.plane);
        assert forall|g: u32| #[trigger] now.plane_of(g) == (if now.selected.contains(
            Pick::Face(g),
        ) {
            last_plane(clicks, g)
        } else {
            None
        }) by {
            if now.selected.contains(Pick::Face(g)) && last.pick != Some(Pick::Face(g)) {
                lemma_only_the_clicked_joins(before, last.pick, last.additive, Pick::Face(g));
                assert(before.plane_of(g) == last_plane(clicks.drop_last(), g));
            }
        }
    }
    if now.lone_face() {
        let g = now.selected[0]->Face_0;
        assert(now.selected.contains(Pick::Face(g)));
        assert(now.plane_of(g) == last_plane(clicks, g));
    }
}

/// What is selected after a click was clicked or was selected before.
proof fn lemma_only_the_clicked_joins(
    s: SelectionModel,
    pick: Option<Pick>,
    additive: bool,
    p: Pick,
)
    requires
        s.picked(pick, additive).contains(p),
        pick != Some(p),
    ensures
        s.selected.contains(p),
{
    let after = s.picked(pick, additive);
    let i = after.index_of(p);
    match pick {
        Some(c) => {
            if additive && s.selected.contains(c) {
                s.selected.index_of_first_ensures(c);
                let k = s.selected.index_of_first(c)->Some_0;
                assert(after == s.selected.remove(k) || after == seq![c]);
                if after == s.selected.remove(k) {
                    assert(p == (if i < k {
                        s.selected[i]
                    } else {
                        s.selected[i + 1]
                    }));
                }
            }
        },
        None => {},
    }
}

/// Clicking an entity twice with the modifier leaves the selection as it was.
pub proof fn law_additive_click_twice_is_nothing(
    s: SelectionModel,
    p: Pick,
    first: Option<SketchPlane>,
    second: Option<SketchPlane>,
)
    requires
        s.well_formed(),
        s.selected.len() == 0 || s.selected[0].like(p),
        !s.selected.contains(p),
    ensures
        s.clicked(Some(p), true, first).clicked(Some(p), true, second) == s,
{
    let once = s.clicked(Some(p), true, first);
    let twice = once.clicked(Some(p), true, second);
    let n = s.selected.len() as int;
    assert(once.selected == s.selected.push(p));
    assert(once.selected[n] == p);
    once.selected.index_of_first_ensures(p);
    let i = once.selected.index_of_first(p)->Some_0;
    assert(i == n) by {
        if i < n {
            assert(s.selected[i] == p);
        }
    }
    if n > 0 {
        assert(once.selected[0] == s.selected[0]);
    }
    assert(once.selected.remove(i) =~= s.selected);
    law_selection_stays_homogeneous(s, Some(p), true, first);
    law_selection_stays_homogeneous(once, Some(p), true, second);
    assert forall|g: u32| #[trigger] twice.plane_of(g) == s.plane_of(g) by {
        if s.selected.contains(Pick::Face(g)) {
            let k = s.selected.index_of(Pick::Face(g));
            assert(once.selected[k] == Pick::Face(g));
            assert(once.plane_of(g) == s.plane_of(g));
        } else if s.planes.contains_key(g) {
            assert(live_faces(s.selected).contains(g));
        }
    }
    assert forall|g: u32| #[trigger] twice.planes.contains_key(g) == s.planes.contains_key(g)
        && (s.planes.contains_key(g) ==> twice.planes[g] == s.planes[g]) by {
        assert(twice.plane_of(g) == s.plane_of(g));
    }
    assert(twice.planes =~= s.planes);
}

} // verus!
