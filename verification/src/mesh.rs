//! Meshes for display.
//!
//! The bodies of a model are shown as one mesh. Each body's faces and edges keep
//! their own numbers, shifted so that no two bodies share one; the start of each
//! body's range leads a picked number back to the body. Coordinates are only
//! moved, so their type is left open.

use vstd::prelude::*;

verus! {

/// A vertex of a face.
#[derive(Clone, Copy, Debug, PartialEq)]
pub struct Vertex<T> {
    pub position: [T; 3],
    pub normal: [T; 3],
    pub face_id: u32,
}

/// A vertex of an edge line.
#[derive(Clone, Copy, Debug, PartialEq)]
pub struct EdgeVertex<T> {
    pub position: [T; 3],
    pub edge_id: u32,
}

/// The vertex numbered `i` of parallel arrays.
pub open spec fn vertex_at<T>(positions: Seq<T>, normals: Seq<T>, face_ids: Seq<u32>, i: int) -> Vertex<
    T,
> {
    Vertex {
        position: [positions[3 * i], positions[3 * i + 1], positions[3 * i + 2]],
        normal: [normals[3 * i], normals[3 * i + 1], normals[3 * i + 2]],
        face_id: face_ids[i],
    }
}

/// The edge vertex numbered `i` of parallel arrays.
pub open spec fn edge_vertex_at<T>(positions: Seq<T>, edge_ids: Seq<u32>, i: int) -> EdgeVertex<T> {
    EdgeVertex {
        position: [positions[3 * i], positions[3 * i + 1], positions[3 * i + 2]],
        edge_id: edge_ids[i],
    }
}

/// The least of two numbers.
pub open spec fn least(a: int, b: int) -> int {
    if a < b {
        a
    } else {
        b
    }
}

/// Interleave parallel position, normal and face-id arrays into vertices, as far
/// as all three reach.
pub fn interleave<T: Copy>(positions: &[T], normals: &[T], face_ids: &[u32]) -> (r: Vec<Vertex<T>>)
    ensures
        r@ == Seq::new(
            least(
                least(positions@.len() as int / 3, normals@.len() as int / 3),
                face_ids@.len() as int,
            ) as nat,
            |i: int| vertex_at(positions@, normals@, face_ids@, i),
        ),
{
    let total: usize = positions.len();
    let p: usize = total / 3;
    let n: usize = normals.len() / 3;
    let mut count: usize = if p < n {
        p
    } else {
        n
    };
    if face_ids.len() < count {
        count = face_ids.len();
    }
    let mut out: Vec<Vertex<T>> = Vec::new();
    let mut i: usize = 0;
    while i < count
        invariant
            i <= count,
            total == positions@.len(),
            3 * count <= total,
            3 * count <= normals@.len(),
            count <= face_ids@.len(),
            out@.len() == i,
            forall|j: int|
                0 <= j < i ==> #[trigger] out@[j] == vertex_at(positions@, normals@, face_ids@, j),
        decreases count - i,
    {
        let k: usize = 3 * i;
        let position = [positions[k], positions[k + 1], positions[k + 2]];
        let normal = [normals[k], normals[k + 1], normals[k + 2]];
        let vertex = Vertex { position, normal, face_id: face_ids[i] };
        proof {
            let want = vertex_at(positions@, normals@, face_ids@, i as int);
            assert(vertex.position =~= want.position);
            assert(vertex.normal =~= want.normal);
        }
        out.push(vertex);
        i += 1;
    }
    out
}

/// Interleave parallel position and edge-id arrays into edge vertices, as far as
/// both reach.
pub fn interleave_edges<T: Copy>(positions: &[T], edge_ids: &[u32]) -> (r: Vec<EdgeVertex<T>>)
    ensures
        r@ == Seq::new(
            least(positions@.len() as int / 3, edge_ids@.len() as int) as nat,
            |i: int| edge_vertex_at(positions@, edge_ids@, i),
        ),
{
    let total: usize = positions.len();
    let mut count: usize = total / 3;
    if edge_ids.len() < count {
        count = edge_ids.len();
    }
    let mut out: Vec<EdgeVertex<T>> = Vec::new();
    let mut i: usize = 0;
    while i < count
        invariant
            i <= count,
            total == positions@.len(),
            3 * count <= total,
            count <= edge_ids@.len(),
            out@.len() == i,
            forall|j: int|
                0 <= j < i ==> #[trigger] out@[j] == edge_vertex_at(positions@, edge_ids@, j),
        decreases count - i,
    {
        let k: usize = 3 * i;
        let position = [positions[k], positions[k + 1], positions[k + 2]];
        let vertex = EdgeVertex { position, edge_id: edge_ids[i] };
        proof {
            assert(vertex.position =~= edge_vertex_at(positions@, edge_ids@, i as int).position);
        }
        out.push(vertex);
        i += 1;
    }
    out
}

/// The line segments between edge vertices: for each pair of indices, the two
/// ends and the edge they belong to. A pair that names a missing vertex, or half
/// a pair, gives none.
pub fn edge_segments<T: Copy>(vertices: &[EdgeVertex<T>], indices: &[u32]) -> (r: Vec<
    ([T; 3], [T; 3], u32),
>)
    ensures
        r@ == segments_upto(vertices@, indices@, indices@.len() as int / 2),
{
    let mut out: Vec<([T; 3], [T; 3], u32)> = Vec::new();
    let total: usize = indices.len();
    let pairs: usize = total / 2;
    let mut i: usize = 0;
    while i < pairs
        invariant
            total == indices@.len(),
            i <= pairs == total / 2,
            out@ == segments_upto(vertices@, indices@, i as int),
        decreases pairs - i,
    {
        let a: usize = indices[2 * i] as usize;
        let b: usize = indices[2 * i + 1] as usize;
        if a < vertices.len() && b < vertices.len() {
            out.push((vertices[a].position, vertices[b].position, vertices[a].edge_id));
        }
        i += 1;
    }
    out
}

/// The segments of the first `n` index pairs.
pub open spec fn segments_upto<T>(vertices: Seq<EdgeVertex<T>>, indices: Seq<u32>, n: int) -> Seq<
    ([T; 3], [T; 3], u32),
>
    decreases n,
{
    if n <= 0 {
        seq![]
    } else {
        let before = segments_upto(vertices, indices, n - 1);
        let (a, b) = (indices[2 * (n - 1)] as int, indices[2 * (n - 1) + 1] as int);
        if a < vertices.len() && b < vertices.len() {
            before.push((vertices[a].position, vertices[b].position, vertices[a].edge_id))
        } else {
            before
        }
    }
}

/// A mesh for display: face vertices and triangles, edge vertices and lines.
#[derive(Debug)]
pub struct MeshData<T> {
    pub vertices: Vec<Vertex<T>>,
    pub indices: Vec<u32>,
    pub edge_vertices: Vec<EdgeVertex<T>>,
    pub edge_indices: Vec<u32>,
}

/// What a [`MeshData`] holds.
#[verifier::ext_equal]
pub struct MeshModel<T> {
    pub vertices: Seq<Vertex<T>>,
    pub indices: Seq<u32>,
    pub edge_vertices: Seq<EdgeVertex<T>>,
    pub edge_indices: Seq<u32>,
}

impl<T> View for MeshData<T> {
    type V = MeshModel<T>;

    open spec fn view(&self) -> MeshModel<T> {
        MeshModel {
            vertices: self.vertices@,
            indices: self.indices@,
            edge_vertices: self.edge_vertices@,
            edge_indices: self.edge_indices@,
        }
    }
}

/// One body's tessellation, as flat arrays: three numbers per position and
/// normal, a face number per vertex, and the same for edges.
#[derive(Debug)]
pub struct MeshPart<T> {
    pub positions: Vec<T>,
    pub normals: Vec<T>,
    pub indices: Vec<u32>,
    pub face_ids: Vec<u32>,
    pub edge_positions: Vec<T>,
    pub edge_indices: Vec<u32>,
    pub edge_ids: Vec<u32>,
}

/// What a [`MeshPart`] holds.
#[verifier::ext_equal]
pub struct PartModel<T> {
    pub positions: Seq<T>,
    pub normals: Seq<T>,
    pub indices: Seq<u32>,
    pub face_ids: Seq<u32>,
    pub edge_positions: Seq<T>,
    pub edge_indices: Seq<u32>,
    pub edge_ids: Seq<u32>,
}

impl<T> View for MeshPart<T> {
    type V = PartModel<T>;

    open spec fn view(&self) -> PartModel<T> {
        PartModel {
            positions: self.positions@,
            normals: self.normals@,
            indices: self.indices@,
            face_ids: self.face_ids@,
            edge_positions: self.edge_positions@,
            edge_indices: self.edge_indices@,
            edge_ids: self.edge_ids@,
        }
    }
}

/// How many numbers a list of ids takes up: one more than the highest. An empty
/// list takes up one.
pub open spec fn id_span(ids: Seq<u32>) -> int
    decreases ids.len(),
{
    if ids.len() == 0 {
        1
    } else {
        let before = id_span(ids.drop_last());
        if ids.last() + 1 > before {
            ids.last() + 1
        } else {
            before
        }
    }
}

/// The ids shifted by `by`.
pub open spec fn shifted(ids: Seq<u32>, by: int) -> Seq<u32> {
    Seq::new(ids.len(), |i: int| (ids[i] + by) as u32)
}

/// The bodies shown so far: their common mesh, where each body's face and edge
/// numbers start, and the next free numbers.
#[derive(Debug)]
pub struct Assembly<T> {
    pub mesh: MeshData<T>,
    pub face_ranges: Vec<u32>,
    pub edge_ranges: Vec<u32>,
    pub face_offset: u32,
    pub edge_offset: u32,
}

/// What an [`Assembly`] holds.
#[verifier::ext_equal]
pub struct AssemblyModel<T> {
    pub mesh: MeshModel<T>,
    pub face_ranges: Seq<u32>,
    pub edge_ranges: Seq<u32>,
    pub face_offset: u32,
    pub edge_offset: u32,
}

impl<T> View for Assembly<T> {
    type V = AssemblyModel<T>;

    open spec fn view(&self) -> AssemblyModel<T> {
        AssemblyModel {
            mesh: self.mesh@,
            face_ranges: self.face_ranges@,
            edge_ranges: self.edge_ranges@,
            face_offset: self.face_offset,
            edge_offset: self.edge_offset,
        }
    }
}

impl<T> AssemblyModel<T> {
    /// Nothing shown yet.
    pub open spec fn empty() -> AssemblyModel<T> {
        AssemblyModel {
            mesh: MeshModel {
                vertices: seq![],
                indices: seq![],
                edge_vertices: seq![],
                edge_indices: seq![],
            },
            face_ranges: seq![],
            edge_ranges: seq![],
            face_offset: 0,
            edge_offset: 0,
        }
    }

    /// The numbers of the part still fit after those in use.
    pub open spec fn has_room(self, part: PartModel<T>) -> bool {
        &&& self.face_offset + id_span(part.face_ids) <= u32::MAX
        &&& self.edge_offset + id_span(part.edge_ids) <= u32::MAX
        &&& self.mesh.vertices.len() + id_span(part.indices) <= u32::MAX + 1
        &&& self.mesh.edge_vertices.len() + id_span(part.edge_indices) <= u32::MAX + 1
    }

    /// One more body, with its faces, edges and indices shifted past those in
    /// use.
    pub open spec fn added(self, part: PartModel<T>) -> AssemblyModel<T> {
        let faces = shifted(part.face_ids, self.face_offset as int);
        let edges = shifted(part.edge_ids, self.edge_offset as int);
        AssemblyModel {
            mesh: MeshModel {
                vertices: self.mesh.vertices + Seq::new(
                    least(
                        least(part.positions.len() as int / 3, part.normals.len() as int / 3),
                        faces.len() as int,
                    ) as nat,
                    |i: int| vertex_at(part.positions, part.normals, faces, i),
                ),
                indices: self.mesh.indices + shifted(
                    part.indices,
                    self.mesh.vertices.len() as int,
                ),
                edge_vertices: self.mesh.edge_vertices + Seq::new(
                    least(part.edge_positions.len() as int / 3, edges.len() as int) as nat,
                    |i: int| edge_vertex_at(part.edge_positions, edges, i),
                ),
                edge_indices: self.mesh.edge_indices + shifted(
                    part.edge_indices,
                    self.mesh.edge_vertices.len() as int,
                ),
            },
            face_ranges: self.face_ranges.push(self.face_offset),
            edge_ranges: self.edge_ranges.push(self.edge_offset),
            face_offset: (self.face_offset + id_span(part.face_ids)) as u32,
            edge_offset: (self.edge_offset + id_span(part.edge_ids)) as u32,
        }
    }

    /// One more body that has no mesh.
    pub open spec fn skipped(self) -> AssemblyModel<T> {
        AssemblyModel {
            face_ranges: self.face_ranges.push(self.face_offset),
            edge_ranges: self.edge_ranges.push(self.edge_offset),
            ..self
        }
    }
}

/// The highest number in use, and one more.
fn span_of_ids(ids: &Vec<u32>) -> (r: u64)
    ensures
        r == id_span(ids@),
        r <= u32::MAX + 1,
{
    let mut span: u64 = 1;
    let mut i: usize = 0;
    proof {
        assert(ids@.take(0) =~= seq![]);
    }
    while i < ids.len()
        invariant
            i <= ids@.len(),
            span == id_span(ids@.take(i as int)),
            1 <= span <= u32::MAX + 1,
        decreases ids@.len() - i,
    {
        proof {
            assert(ids@.take(i + 1).drop_last() =~= ids@.take(i as int));
        }
        let top: u64 = ids[i] as u64 + 1;
        if top > span {
            span = top;
        }
        i += 1;
    }
    proof {
        assert(ids@.take(i as int) =~= ids@);
    }
    span
}

proof fn lemma_span_covers(ids: Seq<u32>, i: int)
    requires
        0 <= i < ids.len(),
    ensures
        ids[i] < id_span(ids),
    decreases ids.len(),
{
    if i < ids.len() - 1 {
        lemma_span_covers(ids.drop_last(), i);
        assert(ids.drop_last()[i] == ids[i]);
    }
}

/// The ids shifted by `by`.
fn shift(ids: &Vec<u32>, by: u32) -> (r: Vec<u32>)
    requires
        by + id_span(ids@) <= u32::MAX + 1,
    ensures
        r@ == shifted(ids@, by as int),
{
    let mut out: Vec<u32> = Vec::new();
    let mut i: usize = 0;
    while i < ids.len()
        invariant
            i <= ids@.len(),
            by + id_span(ids@) <= u32::MAX + 1,
            out@.len() == i,
            forall|j: int| 0 <= j < i ==> #[trigger] out@[j] == ids@[j] + by,
        decreases ids@.len() - i,
    {
        proof {
            lemma_span_covers(ids@, i as int);
        }
        out.push(ids[i] + by);
        i += 1;
    }
    assert(out@ =~= shifted(ids@, by as int));
    out
}

impl<T: Copy> Assembly<T> {
    /// Nothing shown yet.
    pub fn new() -> (r: Assembly<T>)
        ensures
            r@ == AssemblyModel::<T>::empty(),
    {
        Assembly {
            mesh: MeshData {
                vertices: Vec::new(),
                indices: Vec::new(),
                edge_vertices: Vec::new(),
                edge_indices: Vec::new(),
            },
            face_ranges: Vec::new(),
            edge_ranges: Vec::new(),
            face_offset: 0,
            edge_offset: 0,
        }
    }

    /// Whether the part's numbers still fit.
    pub fn fits(&self, part: &MeshPart<T>) -> (r: bool)
        ensures
            r == self@.has_room(part@),
    {
        let limit: u64 = 0xffff_ffff;
        let (v, e): (u64, u64) = (
            self.mesh.vertices.len() as u64,
            self.mesh.edge_vertices.len() as u64,
        );
        self.face_offset as u64 + span_of_ids(&part.face_ids) <= limit && self.edge_offset as u64
            + span_of_ids(&part.edge_ids) <= limit && v <= limit && v + span_of_ids(&part.indices)
            <= limit + 1 && e <= limit && e + span_of_ids(&part.edge_indices) <= limit + 1
    }

    /// Show one more body.
    pub fn add(&mut self, part: &MeshPart<T>)
        requires
            old(self)@.has_room(part@),
        ensures
            final(self)@ == old(self)@.added(part@),
    {
        let ghost before = self@;
        self.face_ranges.push(self.face_offset);
        self.edge_ranges.push(self.edge_offset);
        let base: u32 = self.mesh.vertices.len() as u32;
        let edge_base: u32 = self.mesh.edge_vertices.len() as u32;
        let faces = shift(&part.face_ids, self.face_offset);
        let mut vertices = interleave(
            part.positions.as_slice(),
            part.normals.as_slice(),
            faces.as_slice(),
        );
        self.mesh.vertices.append(&mut vertices);
        let mut indices = shift(&part.indices, base);
        self.mesh.indices.append(&mut indices);
        self.face_offset = (self.face_offset as u64 + span_of_ids(&part.face_ids)) as u32;
        let edges = shift(&part.edge_ids, self.edge_offset);
        let mut edge_vertices = interleave_edges(part.edge_positions.as_slice(), edges.as_slice());
        self.mesh.edge_vertices.append(&mut edge_vertices);
        let mut edge_indices = shift(&part.edge_indices, edge_base);
        self.mesh.edge_indices.append(&mut edge_indices);
        self.edge_offset = (self.edge_offset as u64 + span_of_ids(&part.edge_ids)) as u32;
        assert(self@ =~= before.added(part@));
    }

    /// Count one more body that has no mesh, so that later ones keep their place.
    pub fn skip(&mut self)
        ensures
            final(self)@ == old(self)@.skipped(),
    {
        self.face_ranges.push(self.face_offset);
        self.edge_ranges.push(self.edge_offset);
    }
}

/// The first `n` bodies shown together. A body that has no mesh takes a place
/// but no numbers.
pub open spec fn gathered<T, E>(parts: Seq<Result<MeshPart<T>, E>>, n: nat) -> AssemblyModel<T>
    decreases n,
{
    if n == 0 {
        AssemblyModel::empty()
    } else {
        let before = gathered(parts, (n - 1) as nat);
        match parts[n - 1] {
            Ok(part) => before.added(part@),
            Err(_) => before.skipped(),
        }
    }
}

/// Each of the first `n` bodies has room after those before it.
pub open spec fn roomy<T, E>(parts: Seq<Result<MeshPart<T>, E>>, n: nat) -> bool {
    forall|i: int|
        0 <= i < n && parts[i] is Ok ==> gathered(parts, i as nat).has_room(
            (#[trigger] parts[i])->Ok_0@,
        )
}

/// Show all bodies together; nothing if there are more faces, edges or vertices
/// than can be numbered.
pub fn gather<T: Copy, E>(parts: &Vec<Result<MeshPart<T>, E>>) -> (r: Option<Assembly<T>>)
    ensures
        match r {
            Some(a) => roomy(parts@, parts@.len()) && a@ == gathered(parts@, parts@.len()),
            None => !roomy(parts@, parts@.len()),
        },
{
    let mut assembly: Assembly<T> = Assembly::new();
    let mut i: usize = 0;
    while i < parts.len()
        invariant
            i <= parts@.len(),
            roomy(parts@, i as nat),
            assembly@ == gathered(parts@, i as nat),
        decreases parts@.len() - i,
    {
        match &parts[i] {
            Ok(part) => {
                if !assembly.fits(part) {
                    assert(parts@[i as int] is Ok && !gathered(parts@, i as nat).has_room(
                        parts@[i as int]->Ok_0@,
                    ));
                    return None;
                }
                assembly.add(part);
            },
            Err(_) => assembly.skip(),
        }
        i += 1;
    }
    Some(assembly)
}

/// The body a global number belongs to, and the number within it: the last range
/// that starts at or before it.
pub open spec fn located(ranges: Seq<u32>, global: u32) -> Option<(usize, u32)>
    decreases ranges.len(),
{
    if ranges.len() == 0 {
        None
    } else if ranges.last() <= global {
        Some(((ranges.len() - 1) as usize, (global - ranges.last()) as u32))
    } else {
        located(ranges.drop_last(), global)
    }
}

/// The body a global number belongs to, and the number within it.
pub fn locate(ranges: &Vec<u32>, global: u32) -> (r: Option<(usize, u32)>)
    ensures
        r == located(ranges@, global),
        r matches Some((i, _)) ==> i < ranges@.len(),
{
    let mut n: usize = ranges.len();
    proof {
        assert(ranges@.take(n as int) =~= ranges@);
    }
    while n > 0
        invariant
            n <= ranges@.len(),
            located(ranges@, global) == located(ranges@.take(n as int), global),
        decreases n,
    {
        proof {
            assert(ranges@.take(n as int).drop_last() =~= ranges@.take(n - 1));
        }
        let start: u32 = ranges[n - 1];
        if start <= global {
            return Some((n - 1, global - start));
        }
        n -= 1;
    }
    None
}

/// A number given to a body when it was shown leads back to that body and its
/// own number, also after further bodies were shown.
pub proof fn law_picks_lead_back(ranges: Seq<u32>, more: Seq<u32>, start: u32, span: int, local: u32)
    requires
        start + span <= u32::MAX,
        local < span,
        ranges.len() + more.len() < usize::MAX,
        forall|i: int| 0 <= i < more.len() ==> #[trigger] more[i] >= start + span,
    ensures
        located(ranges.push(start) + more, (start + local) as u32) == Some(
            (ranges.len() as usize, local),
        ),
    decreases more.len(),
{
    let all = ranges.push(start) + more;
    if more.len() == 0 {
        assert(all =~= ranges.push(start));
    } else {
        assert(all.last() == more.last());
        assert(all.drop_last() =~= ranges.push(start) + more.drop_last());
        law_picks_lead_back(ranges, more.drop_last(), start, span, local);
    }
}

/// Where bodies after the first `b` start: no earlier than where the next number
/// was then.
proof fn lemma_ranges_grow<T, E>(parts: Seq<Result<MeshPart<T>, E>>, b: nat, n: nat)
    requires
        b <= n <= parts.len(),
        roomy(parts, n),
    ensures
        gathered(parts, b).face_offset <= gathered(parts, n).face_offset,
        gathered(parts, b).edge_offset <= gathered(parts, n).edge_offset,
        gathered(parts, n).face_ranges.len() == n,
        gathered(parts, n).edge_ranges.len() == n,
        gathered(parts, n).face_ranges.take(b as int) == gathered(parts, b).face_ranges,
        gathered(parts, n).edge_ranges.take(b as int) == gathered(parts, b).edge_ranges,
        forall|i: int|
            b <= i < n ==> #[trigger] gathered(parts, n).face_ranges[i] >= gathered(
                parts,
                b,
            ).face_offset,
        forall|i: int|
            b <= i < n ==> #[trigger] gathered(parts, n).edge_ranges[i] >= gathered(
                parts,
                b,
            ).edge_offset,
    decreases n,
{
    if n == 0 {
        assert(gathered(parts, 0).face_ranges.take(0) =~= seq![]);
        assert(gathered(parts, 0).edge_ranges.take(0) =~= seq![]);
    } else if b < n {
        lemma_ranges_grow(parts, b, (n - 1) as nat);
        let (before, after) = (gathered(parts, (n - 1) as nat), gathered(parts, n));
        if let Ok(part) = parts[n - 1] {
            lemma_span_positive(part@.face_ids);
            lemma_span_positive(part@.edge_ids);
        }
        assert(after.face_ranges.take(b as int) =~= before.face_ranges.take(b as int));
        assert(after.edge_ranges.take(b as int) =~= before.edge_ranges.take(b as int));
        assert forall|i: int| b <= i < n implies #[trigger] after.face_ranges[i] >= gathered(
            parts,
            b,
        ).face_offset by {
            if i < n - 1 {
                assert(after.face_ranges[i] == before.face_ranges[i]);
            }
        }
        assert forall|i: int| b <= i < n implies #[trigger] after.edge_ranges[i] >= gathered(
            parts,
            b,
        ).edge_offset by {
            if i < n - 1 {
                assert(after.edge_ranges[i] == before.edge_ranges[i]);
            }
        }
    } else {
        lemma_ranges_grow(parts, (n - 1) as nat, (n - 1) as nat);
        assert(gathered(parts, n).face_ranges.take(n as int) =~= gathered(parts, n).face_ranges);
        assert(gathered(parts, n).edge_ranges.take(n as int) =~= gathered(parts, n).edge_ranges);
    }
}

/// A span holds at least one number.
proof fn lemma_span_positive(ids: Seq<u32>)
    ensures
        id_span(ids) >= 1,
    decreases ids.len(),
{
    if ids.len() > 0 {
        lemma_span_positive(ids.drop_last());
    }
}

/// Of all bodies shown together, the number shown for a body's face leads back
/// to that body and to the face's own number.
pub proof fn law_every_face_leads_back<T, E>(parts: Seq<Result<MeshPart<T>, E>>, b: int, i: int)
    requires
        parts.len() < usize::MAX,
        roomy(parts, parts.len()),
        0 <= b < parts.len(),
        parts[b] is Ok,
        0 <= i < parts[b]->Ok_0@.face_ids.len(),
    ensures
        ({
            let local = parts[b]->Ok_0@.face_ids[i];
            let shown = gathered(parts, b as nat).face_offset + local;
            &&& shown <= u32::MAX
            &&& located(gathered(parts, parts.len()).face_ranges, shown as u32) == Some(
                (b as usize, local),
            )
        }),
{
    let part = parts[b]->Ok_0@;
    let (before, after) = (gathered(parts, b as nat), gathered(parts, (b + 1) as nat));
    let all = gathered(parts, parts.len()).face_ranges;
    assert(before.has_room(part));
    lemma_span_covers(part.face_ids, i);
    lemma_ranges_grow(parts, b as nat, (b + 1) as nat);
    lemma_ranges_grow(parts, (b + 1) as nat, parts.len());
    let more = all.skip(b + 1);
    assert(all =~= all.take(b + 1) + more);
    assert(after.face_ranges == before.face_ranges.push(before.face_offset));
    assert(before.face_ranges.len() == b);
    assert forall|k: int| 0 <= k < more.len() implies #[trigger] more[k] >= before.face_offset
        + id_span(part.face_ids) by {
        assert(more[k] == all[b + 1 + k]);
    }
    law_picks_lead_back(
        before.face_ranges,
        more,
        before.face_offset,
        id_span(part.face_ids),
        part.face_ids[i],
    );
}

/// Of all bodies shown together, the number shown for a body's edge leads back
/// to that body and to the edge's own number.
pub proof fn law_every_edge_leads_back<T, E>(parts: Seq<Result<MeshPart<T>, E>>, b: int, i: int)
    requires
        parts.len() < usize::MAX,
        roomy(parts, parts.len()),
        0 <= b < parts.len(),
        parts[b] is Ok,
        0 <= i < parts[b]->Ok_0@.edge_ids.len(),
    ensures
        ({
            let local = parts[b]->Ok_0@.edge_ids[i];
            let shown = gathered(parts, b as nat).edge_offset + local;
            &&& shown <= u32::MAX
            &&& located(gathered(parts, parts.len()).edge_ranges, shown as u32) == Some(
                (b as usize, local),
            )
        }),
{
    let part = parts[b]->Ok_0@;
    let (before, after) = (gathered(parts, b as nat), gathered(parts, (b + 1) as nat));
    let all = gathered(parts, parts.len()).edge_ranges;
    assert(before.has_room(part));
    lemma_span_covers(part.edge_ids, i);
    lemma_ranges_grow(parts, b as nat, (b + 1) as nat);
    lemma_ranges_grow(parts, (b + 1) as nat, parts.len());
    let more = all.skip(b + 1);
    assert(all =~= all.take(b + 1) + more);
    assert(after.edge_ranges == before.edge_ranges.push(before.edge_offset));
    assert(before.edge_ranges.len() == b);
    assert forall|k: int| 0 <= k < more.len() implies #[trigger] more[k] >= before.edge_offset
        + id_span(part.edge_ids) by {
        assert(more[k] == all[b + 1 + k]);
    }
    law_picks_lead_back(
        before.edge_ranges,
        more,
        before.edge_offset,
        id_span(part.edge_ids),
        part.edge_ids[i],
    );
}

/// Every body shown later starts past the numbers in use, so no two bodies share
/// a face or an edge number.
pub proof fn law_bodies_share_no_number<T>(a: AssemblyModel<T>, part: PartModel<T>, i: int)
    requires
        a.has_room(part),
    ensures
        0 <= i < part.face_ids.len() ==> {
            let id = shifted(part.face_ids, a.face_offset as int)[i];
            &&& id == a.face_offset + part.face_ids[i]
            &&& a.face_offset <= id < a.added(part).face_offset
        },
        0 <= i < part.edge_ids.len() ==> {
            let id = shifted(part.edge_ids, a.edge_offset as int)[i];
            &&& id == a.edge_offset + part.edge_ids[i]
            &&& a.edge_offset <= id < a.added(part).edge_offset
        },
        a.skipped().face_offset == a.face_offset,
        a.skipped().edge_offset == a.edge_offset,
{
    if 0 <= i < part.face_ids.len() {
        lemma_span_covers(part.face_ids, i);
    }
    if 0 <= i < part.edge_ids.len() {
        lemma_span_covers(part.edge_ids, i);
    }
}

/// The index pairs that both name vertices, by their numbers, one after the other.
pub open spec fn complete_pairs<T>(
    vertices: Seq<EdgeVertex<T>>,
    indices: Seq<u32>,
    pairs: Seq<int>,
) -> bool {
    &&& forall|k: int|
        0 <= k < pairs.len() ==> {
            &&& 0 <= #[trigger] pairs[k]
            &&& 2 * pairs[k] + 1 < indices.len()
            &&& indices[2 * pairs[k]] < vertices.len()
            &&& indices[2 * pairs[k] + 1] < vertices.len()
        }
    &&& forall|j: int, k: int|
        #![trigger pairs[j], pairs[k]]
        0 <= j < k < pairs.len() ==> pairs[j] < pairs[k]
    &&& forall|i: int|
        0 <= i && 2 * i + 1 < indices.len() && indices[2 * i] < vertices.len() && indices[2 * i + 1]
            < vertices.len() ==> #[trigger] pairs.contains(i)
}

/// Segments join the vertices their pair of indices names: there is one for each pair
/// that names two vertices, in order, from where the first lies to where the second
/// lies, with the first one's edge number, and there are no others.
pub proof fn law_segments_join_the_named_vertices<T>(
    vertices: Seq<EdgeVertex<T>>,
    indices: Seq<u32>,
)
    ensures
        ({
            let segments = segments_upto(vertices, indices, indices.len() as int / 2);
            exists|pairs: Seq<int>|
                {
                    &&& #[trigger] complete_pairs(vertices, indices, pairs)
                    &&& segments.len() == pairs.len()
                    &&& forall|k: int|
                        0 <= k < pairs.len() ==> {
                            let (i, j) = (
                                indices[2 * pairs[k]] as int,
                                indices[2 * pairs[k] + 1] as int,
                            );
                            &&& (#[trigger] segments[k]).0 == vertices[i].position
                            &&& segments[k].1 == vertices[j].position
                            &&& segments[k].2 == vertices[i].edge_id
                        }
                }
        }),
{
    let pairs = lemma_complete_pairs(vertices, indices, indices.len() as int / 2);
    assert(complete_pairs(vertices, indices, pairs));
}

proof fn lemma_complete_pairs<T>(vertices: Seq<EdgeVertex<T>>, indices: Seq<u32>, n: int) -> (pairs:
    Seq<int>)
    requires
        0 <= n,
        2 * n <= indices.len(),
    ensures
        complete_pairs(vertices, indices.take(2 * n), pairs),
        n == indices.len() as int / 2 ==> complete_pairs(vertices, indices, pairs),
        segments_upto(vertices, indices, n).len() == pairs.len(),
        forall|k: int|
            0 <= k < pairs.len() ==> {
                let (i, j) = (indices[2 * pairs[k]] as int, indices[2 * pairs[k] + 1] as int);
                &&& (#[trigger] segments_upto(vertices, indices, n)[k]).0 == vertices[i].position
                &&& segments_upto(vertices, indices, n)[k].1 == vertices[j].position
                &&& segments_upto(vertices, indices, n)[k].2 == vertices[i].edge_id
            },
    decreases n,
{
    let part = indices.take(2 * n);
    if n == 0 {
        let none = Seq::<int>::empty();
        assert forall|i: int|
            0 <= i && 2 * i + 1 < indices.len() && n == indices.len() as int / 2 implies
            #[trigger] none.contains(i) by {}
        none
    } else {
        let before = lemma_complete_pairs(vertices, indices, n - 1);
        let short = indices.take(2 * (n - 1));
        let (a, b) = (indices[2 * (n - 1)], indices[2 * (n - 1) + 1]);
        let named = a < vertices.len() && b < vertices.len();
        let pairs = if named {
            before.push(n - 1)
        } else {
            before
        };
        assert forall|k: int| 0 <= k < before.len() implies #[trigger] pairs[k] == before[k]
            && 2 * pairs[k] + 1 < 2 * (n - 1) && indices[2 * pairs[k]] == short[2 * pairs[k]]
            && indices[2 * pairs[k] + 1] == short[2 * pairs[k] + 1] by {}
        assert forall|i: int|
            0 <= i < n && indices[2 * i] < vertices.len() && indices[2 * i + 1]
                < vertices.len() implies #[trigger] pairs.contains(i) by {
            if i < n - 1 {
                assert(short[2 * i] == indices[2 * i] && short[2 * i + 1] == indices[2 * i + 1]);
                assert(before.contains(i));
                let k = before.index_of(i);
                assert(pairs[k] == i);
            } else {
                assert(pairs[before.len() as int] == n - 1);
            }
        }
        assert(complete_pairs(vertices, part, pairs)) by {
            assert forall|k: int| 0 <= k < pairs.len() implies {
                &&& 0 <= #[trigger] pairs[k]
                &&& 2 * pairs[k] + 1 < part.len()
                &&& part[2 * pairs[k]] < vertices.len()
                &&& part[2 * pairs[k] + 1] < vertices.len()
            } by {
                if k < before.len() {
                    assert(pairs[k] == before[k]);
                    assert(short[2 * before[k]] < vertices.len());
                }
            }
            assert forall|i: int|
                0 <= i && 2 * i + 1 < part.len() && part[2 * i] < vertices.len() && part[2 * i + 1]
                    < vertices.len() implies #[trigger] pairs.contains(i) by {
                assert(part[2 * i] == indices[2 * i] && part[2 * i + 1] == indices[2 * i + 1]);
            }
        }
        if n == indices.len() as int / 2 {
            assert forall|i: int|
                0 <= i && 2 * i + 1 < indices.len() && indices[2 * i] < vertices.len() && indices[2
                    * i + 1] < vertices.len() implies #[trigger] pairs.contains(i) by {
                assert(i < n);
            }
            assert forall|k: int| 0 <= k < pairs.len() implies {
                &&& 0 <= #[trigger] pairs[k]
                &&& 2 * pairs[k] + 1 < indices.len()
                &&& indices[2 * pairs[k]] < vertices.len()
                &&& indices[2 * pairs[k] + 1] < vertices.len()
            } by {
                assert(part[2 * pairs[k]] < vertices.len());
                assert(part[2 * pairs[k] + 1] < vertices.len());
            }
        }
        assert forall|k: int| 0 <= k < pairs.len() implies {
            let (i, j) = (indices[2 * pairs[k]] as int, indices[2 * pairs[k] + 1] as int);
            &&& (#[trigger] segments_upto(vertices, indices, n)[k]).0 == vertices[i].position
            &&& segments_upto(vertices, indices, n)[k].1 == vertices[j].position
            &&& segments_upto(vertices, indices, n)[k].2 == vertices[i].edge_id
        } by {
            if k < before.len() {
                assert(segments_upto(vertices, indices, n)[k] == segments_upto(
                    vertices,
                    indices,
                    n - 1,
                )[k]);
            }
        }
        pairs
    }
}

/// A vertex has the three coordinates and the number that stand at its place in the
/// arrays.
pub proof fn law_vertices_have_their_own_numbers<T>(
    positions: Seq<T>,
    normals: Seq<T>,
    ids: Seq<u32>,
    i: int,
    k: int,
)
    requires
        0 <= k < 3,
    ensures
        vertex_at(positions, normals, ids, i).position[k] == positions[3 * i + k],
        vertex_at(positions, normals, ids, i).normal[k] == normals[3 * i + k],
        vertex_at(positions, normals, ids, i).face_id == ids[i],
        edge_vertex_at(positions, ids, i).position[k] == positions[3 * i + k],
        edge_vertex_at(positions, ids, i).edge_id == ids[i],
{
}

/// A part whose arrays go together: a normal and a face number for every position, an
/// edge number for every edge position, and indices that name vertices.
pub open spec fn whole_part<T>(part: PartModel<T>) -> bool {
    &&& part.positions.len() == 3 * part.face_ids.len()
    &&& part.normals.len() == 3 * part.face_ids.len()
    &&& part.edge_positions.len() == 3 * part.edge_ids.len()
    &&& forall|i: int|
        0 <= i < part.indices.len() ==> (#[trigger] part.indices[i]) < part.face_ids.len()
    &&& forall|i: int|
        0 <= i < part.edge_indices.len() ==> (#[trigger] part.edge_indices[i])
            < part.edge_ids.len()
}

/// A body joins the others without disturbing them: what was shown stays where it is,
/// and the corner behind each index of the body lies where the body's own corner lies,
/// with its normal and with its face number counted on from the last one in use.
pub proof fn law_a_body_keeps_its_shape<T>(a: AssemblyModel<T>, part: PartModel<T>, t: int, k: int)
    requires
        a.has_room(part),
        whole_part(part),
        0 <= k < 3,
    ensures
        ({
            let now = a.added(part).mesh;
            let n = a.mesh.indices.len();
            &&& now.indices.len() == n + part.indices.len()
            &&& 0 <= t < n ==> now.indices[t] == a.mesh.indices[t]
            &&& now.vertices.len() == a.mesh.vertices.len() + part.face_ids.len()
            &&& 0 <= t < a.mesh.vertices.len() ==> now.vertices[t] == a.mesh.vertices[t]
            &&& 0 <= t < part.indices.len() ==> {
                let (v, own) = (now.indices[n + t] as int, part.indices[t] as int);
                &&& a.mesh.vertices.len() <= v < now.vertices.len()
                &&& now.vertices[v].position[k] == part.positions[3 * own + k]
                &&& now.vertices[v].normal[k] == part.normals[3 * own + k]
                &&& now.vertices[v].face_id == a.face_offset + part.face_ids[own]
            }
        }),
        ({
            let now = a.added(part).mesh;
            let n = a.mesh.edge_indices.len();
            &&& now.edge_indices.len() == n + part.edge_indices.len()
            &&& 0 <= t < n ==> now.edge_indices[t] == a.mesh.edge_indices[t]
            &&& now.edge_vertices.len() == a.mesh.edge_vertices.len() + part.edge_ids.len()
            &&& 0 <= t < a.mesh.edge_vertices.len() ==> now.edge_vertices[t]
                == a.mesh.edge_vertices[t]
            &&& 0 <= t < part.edge_indices.len() ==> {
                let (v, own) = (now.edge_indices[n + t] as int, part.edge_indices[t] as int);
                &&& a.mesh.edge_vertices.len() <= v < now.edge_vertices.len()
                &&& now.edge_vertices[v].position[k] == part.edge_positions[3 * own + k]
                &&& now.edge_vertices[v].edge_id == a.edge_offset + part.edge_ids[own]
            }
        }),
{
    if 0 <= t < part.indices.len() {
        lemma_span_covers(part.indices, t);
        let own = part.indices[t] as int;
        lemma_span_covers(part.face_ids, own);
    }
    if 0 <= t < part.edge_indices.len() {
        lemma_span_covers(part.edge_indices, t);
        let own = part.edge_indices[t] as int;
        lemma_span_covers(part.edge_ids, own);
    }
}

/// The mesh begins with another.
pub open spec fn mesh_begins_with<T>(mesh: MeshModel<T>, other: MeshModel<T>) -> bool {
    &&& other.vertices.is_prefix_of(mesh.vertices)
    &&& other.indices.is_prefix_of(mesh.indices)
    &&& other.edge_vertices.is_prefix_of(mesh.edge_vertices)
    &&& other.edge_indices.is_prefix_of(mesh.edge_indices)
}

/// Bodies shown later leave the mesh of those before them as it is, and the ranges
/// too.
pub proof fn law_later_bodies_leave_the_mesh<T, E>(
    parts: Seq<Result<MeshPart<T>, E>>,
    b: nat,
    n: nat,
)
    requires
        b <= n <= parts.len(),
    ensures
        mesh_begins_with(gathered(parts, n).mesh, gathered(parts, b).mesh),
        gathered(parts, b).face_ranges.is_prefix_of(gathered(parts, n).face_ranges),
        gathered(parts, b).edge_ranges.is_prefix_of(gathered(parts, n).edge_ranges),
    decreases n,
{
    if b < n {
        law_later_bodies_leave_the_mesh(parts, b, (n - 1) as nat);
    }
}

} // verus!
