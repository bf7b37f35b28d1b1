use vstd::prelude::*;

verus! {

/// How many numbers one vertex or one point contributes to a flat array.
pub const VERTEX_STRIDE: usize = 3;

/// How many numbers one instance contributes to a flat array.
pub const INSTANCE_STRIDE: usize = 8;

/// One corner of a triangle mesh. Each coordinate is held as the bit pattern
/// of a single-precision number, so that it can be compared exactly.
#[derive(Clone, Copy, Debug, PartialEq, Eq)]
pub struct Vertex {
    pub position: [u32; 3],
}

/// A point in space, coordinates as bit patterns of single-precision numbers.
#[derive(Clone, Copy, Debug, PartialEq, Eq)]
pub struct Point3 {
    pub coords: [u32; 3],
}

/// One occurrence of a drawable object: where it stands, which way it
/// faces and its colour, each number as the bit pattern of a
/// single-precision number.
#[derive(Clone, Copy, Debug, PartialEq, Eq)]
pub struct Instance {
    pub instance_position: [u32; 3],
    pub instance_direction: [u32; 2],
    pub instance_color: [u32; 3],
}

/// The `k`-th of the eight numbers of an instance: position, then direction,
/// then colour.
pub open spec fn instance_component(instance: Instance, k: int) -> u32 {
    if k < 3 {
        instance.instance_position[k]
    } else if k < 5 {
        instance.instance_direction[k - 3]
    } else {
        instance.instance_color[k - 5]
    }
}

/// The vertices laid out one after the other, three numbers each.
pub open spec fn flat_vertices(vertices: Seq<Vertex>) -> Seq<u32> {
    Seq::new(3 * vertices.len(), |j: int| vertices[j / 3].position[j % 3])
}

/// The points laid out one after the other, three numbers each.
pub open spec fn flat_points(points: Seq<Point3>) -> Seq<u32> {
    Seq::new(3 * points.len(), |j: int| points[j / 3].coords[j % 3])
}

/// The instances laid out one after the other, eight numbers each.
pub open spec fn flat_instances(instances: Seq<Instance>) -> Seq<u32> {
    Seq::new(8 * instances.len(), |j: int| instance_component(instances[j / 8], j % 8))
}

/// Lays vertices out as one flat array with a stride of three.
pub fn flatten_vertices(vertices: &Vec<Vertex>) -> (flat: Vec<u32>)
    ensures
        flat@ == flat_vertices(vertices@),
        flat@.len() == VERTEX_STRIDE * vertices@.len(),
{
    let mut flat: Vec<u32> = Vec::new();
    let mut i: usize = 0;
    while i < vertices.len()
        invariant
            i <= vertices.len(),
            flat@.len() == 3 * i,
            forall|j: int| 0 <= j < 3 * i ==> flat@[j] == vertices@[j / 3].position[j % 3],
        decreases vertices.len() - i,
    {
        let v = vertices[i];
        flat.push(v.position[0]);
        flat.push(v.position[1]);
        flat.push(v.position[2]);
        i = i + 1;
    }
    assert(flat@ =~= flat_vertices(vertices@));
    flat
}

/// Lays points out as one flat array with a stride of three.
pub fn flatten_points(points: &Vec<Point3>) -> (flat: Vec<u32>)
    ensures
        flat@ == flat_points(points@),
        flat@.len() == VERTEX_STRIDE * points@.len(),
{
    let mut flat: Vec<u32> = Vec::new();
    let mut i: usize = 0;
    while i < points.len()
        invariant
            i <= points.len(),
            flat@.len() == 3 * i,
            forall|j: int| 0 <= j < 3 * i ==> flat@[j] == points@[j / 3].coords[j % 3],
        decreases points.len() - i,
    {
        let p = points[i];
        flat.push(p.coords[0]);
        flat.push(p.coords[1]);
        flat.push(p.coords[2]);
        i = i + 1;
    }
    assert(flat@ =~= flat_points(points@));
    flat
}

/// Adds the eight numbers of the instances of `instances` to `flat`.
pub fn extend_with_instances(flat: &mut Vec<u32>, instances: &Vec<Instance>)
    ensures
        final(flat)@ == old(flat)@ + flat_instances(instances@),
{
    let ghost before = flat@;
    let mut i: usize = 0;
    while i < instances.len()
        invariant
            i <= instances.len(),
            flat@.len() == before.len() + 8 * i,
            forall|j: int| 0 <= j < before.len() ==> flat@[j] == before[j],
            forall|j: int|
                before.len() <= j < before.len() + 8 * i ==> #[trigger] flat@[j]
                    == instance_component(
                    instances@[(j - before.len()) / 8],
                    (j - before.len()) % 8,
                ),
        decreases instances.len() - i,
    {
        let inst = instances[i];
        flat.push(inst.instance_position[0]);
        flat.push(inst.instance_position[1]);
        flat.push(inst.instance_position[2]);
        flat.push(inst.instance_direction[0]);
        flat.push(inst.instance_direction[1]);
        flat.push(inst.instance_color[0]);
        flat.push(inst.instance_color[1]);
        flat.push(inst.instance_color[2]);
        i = i + 1;
    }
    assert(flat@ =~= before + flat_instances(instances@));
}

/// Lays instances out as one flat array with a stride of eight.
pub fn flatten_instances(instances: &Vec<Instance>) -> (flat: Vec<u32>)
    ensures
        flat@ == flat_instances(instances@),
        flat@.len() == INSTANCE_STRIDE * instances@.len(),
{
    let mut flat: Vec<u32> = Vec::new();
    extend_with_instances(&mut flat, instances);
    assert(flat@ =~= flat_instances(instances@));
    flat
}

/// A triangle mesh: corners, and triples of corner numbers that name the
/// triangles.
#[derive(Clone, Debug, PartialEq, Eq)]
pub struct Mesh {
    pub vertices: Vec<Vertex>,
    pub indices: Vec<u16>,
}

/// What a mesh holds.
pub struct MeshView {
    pub vertices: Seq<Vertex>,
    pub indices: Seq<u16>,
}

impl View for Mesh {
    type V = MeshView;

    open spec fn view(&self) -> MeshView {
        MeshView { vertices: self.vertices@, indices: self.indices@ }
    }
}

/// The mesh without corners and without triangles.
pub open spec fn empty_mesh() -> MeshView {
    MeshView { vertices: Seq::empty(), indices: Seq::empty() }
}

/// A corner number moved up by `by` corners, counted round within sixteen
/// bits.
pub open spec fn shifted(index: u16, by: nat) -> u16 {
    ((index + by) % 0x1_0000) as u16
}

/// The corners of `a` followed by those of `b`; the triangles of `a` followed
/// by those of `b`, which now name their corners after those of `a`.
pub open spec fn merged(a: MeshView, b: MeshView) -> MeshView {
    MeshView {
        vertices: a.vertices + b.vertices,
        indices: a.indices + b.indices.map_values(|i: u16| shifted(i, a.vertices.len())),
    }
}

impl Mesh {
    /// A mesh of the given corners and triangles.
    pub fn new(vertices: Vec<Vertex>, indices: Vec<u16>) -> (mesh: Mesh)
        ensures
            mesh@ == (MeshView { vertices: vertices@, indices: indices@ }),
    {
        Mesh { vertices, indices }
    }

    /// The mesh without corners and without triangles.
    pub fn empty() -> (mesh: Mesh)
        ensures
            mesh@ == empty_mesh(),
    {
        Mesh { vertices: Vec::new(), indices: Vec::new() }
    }

    /// A mesh that holds what this one holds.
    pub fn duplicate(&self) -> (mesh: Mesh)
        ensures
            mesh@ == self@,
    {
        let mut mesh = Mesh::empty();
        mesh.add_assign(self);
        assert(mesh@.vertices =~= self@.vertices);
        assert(mesh@.indices =~= self@.indices);
        mesh
    }

    /// Merges `rhs` into this mesh.
    pub fn add_assign(&mut self, rhs: &Mesh)
        ensures
            final(self)@ == merged(old(self)@, rhs@),
    {
        let count: usize = self.vertices.len();
        let offset: u16 = (count % 0x1_0000) as u16;
        let mut i: usize = 0;
        while i < rhs.vertices.len()
            invariant
                i <= rhs.vertices.len(),
                self.indices@ == old(self).indices@,
                self.vertices@ == old(self).vertices@ + rhs.vertices@.take(i as int),
            decreases rhs.vertices.len() - i,
        {
            self.vertices.push(rhs.vertices[i]);
            i = i + 1;
            assert(self.vertices@ =~= old(self).vertices@ + rhs.vertices@.take(i as int));
        }
        assert(rhs.vertices@.take(i as int) =~= rhs.vertices@);
        let mut k: usize = 0;
        while k < rhs.indices.len()
            invariant
                k <= rhs.indices.len(),
                count == old(self).vertices@.len(),
                offset == count % 0x1_0000,
                self.vertices@ == old(self).vertices@ + rhs.vertices@,
                self.indices@.len() == old(self).indices@.len() + k,
                forall|j: int|
                    0 <= j < old(self).indices@.len() ==> self.indices@[j] == old(
                        self,
                    ).indices@[j],
                forall|j: int|
                    old(self).indices@.len() <= j < old(self).indices@.len() + k
                        ==> #[trigger] self.indices@[j] == shifted(
                        rhs.indices@[j - old(self).indices@.len()],
                        count as nat,
                    ),
            decreases rhs.indices.len() - k,
        {
            let index: u16 = rhs.indices[k];
            let moved: u16 = index.wrapping_add(offset);
            assert(moved == shifted(index, count as nat));
            self.indices.push(moved);
            k = k + 1;
        }
        assert(self@.indices =~= merged(old(self)@, rhs@).indices);
    }
}

/// Merging the empty mesh into a mesh changes nothing, and merging a mesh
/// into the empty mesh gives that mesh.
pub proof fn lemma_merge_empty(m: MeshView)
    ensures
        merged(m, empty_mesh()) == m,
        merged(empty_mesh(), m) == m,
{
    assert(merged(m, empty_mesh()).vertices =~= m.vertices);
    assert(merged(m, empty_mesh()).indices =~= m.indices);
    assert(merged(empty_mesh(), m).vertices =~= m.vertices);
    assert(merged(empty_mesh(), m).indices =~= m.indices);
}

/// A mesh in the form in which it crosses to the presentation surface: the
/// corners as one flat array of numbers, three to a corner, and the corner
/// numbers of the triangles as they are.
#[derive(Clone, Debug, PartialEq, Eq)]
pub struct JsMesh {
    pub vertices: Vec<u32>,
    pub indices: Vec<u16>,
}

/// What a flat mesh holds.
pub struct JsMeshView {
    pub vertices: Seq<u32>,
    pub indices: Seq<u16>,
}

impl View for JsMesh {
    type V = JsMeshView;

    open spec fn view(&self) -> JsMeshView {
        JsMeshView { vertices: self.vertices@, indices: self.indices@ }
    }
}

/// The flat form of a mesh.
pub open spec fn js_mesh_of(mesh: MeshView) -> JsMeshView {
    JsMeshView { vertices: flat_vertices(mesh.vertices), indices: mesh.indices }
}

/// Copies a sequence of corner numbers.
pub fn copy_indices(indices: &Vec<u16>) -> (copy: Vec<u16>)
    ensures
        copy@ == indices@,
{
    let mut copy: Vec<u16> = Vec::new();
    let mut i: usize = 0;
    while i < indices.len()
        invariant
            i <= indices.len(),
            copy@ == indices@.take(i as int),
        decreases indices.len() - i,
    {
        copy.push(indices[i]);
        i = i + 1;
        assert(copy@ =~= indices@.take(i as int));
    }
    assert(indices@.take(i as int) =~= indices@);
    copy
}

/// Puts a mesh into the form in which it crosses to the presentation
/// surface.
pub fn to_js_mesh(mesh: &Mesh) -> (js: JsMesh)
    ensures
        js@ == js_mesh_of(mesh@),
        js@.vertices.len() == VERTEX_STRIDE * mesh@.vertices.len(),
{
    JsMesh { vertices: flatten_vertices(&mesh.vertices), indices: copy_indices(&mesh.indices) }
}

} // verus!
