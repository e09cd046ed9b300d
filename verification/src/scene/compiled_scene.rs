//! The compiled scene: flat vertex streams, one index stream, and a record
//! for every draw.

use crate::algebra::{Mat4, Vec2, Vec3, Vec4};
use crate::camera::Camera;
use crate::scene::error::GltfSceneError;
use vstd::prelude::*;

verus! {

/// The part of a material that the renderer reads.
#[derive(Clone, Copy, Debug, PartialEq, Eq)]
pub struct PbrMetallicRoughness {
    pub base_color_factor: Vec4,
    /// Index into the list of decoded images; without one the renderer
    /// falls back on a white texture.
    pub texture_index: Option<usize>,
}

/// A material record. Every primitive gets one of its own.
#[derive(Clone, Copy, Debug, PartialEq, Eq)]
pub struct Material {
    pub metallic_roughness: PbrMetallicRoughness,
}

/// What it takes to issue one indexed draw against the flat buffers.
#[derive(Clone, Copy, Debug, PartialEq, Eq)]
pub struct MeshDraw {
    /// Where in the index stream the indices of this draw begin.
    pub start_idx: u32,
    pub num_indices: u32,
    pub material_idx: u32,
    /// The world transform of the node that holds the primitive.
    pub transform_matrix: Mat4,
}

/// Everything a renderer uploads for one scene.
#[derive(Debug, PartialEq, Eq)]
pub struct CompiledScene {
    pub positions: Vec<Vec3>,
    pub colors: Vec<Vec4>,
    pub uvs: Vec<Vec2>,
    pub normals: Vec<Vec3>,
    pub indices: Vec<u32>,
    pub materials: Vec<Material>,
    pub mesh_draws: Vec<MeshDraw>,
    pub cameras: Vec<Camera>,
}

/// The decoded data of one mesh primitive. Only what its accessors hold is
/// here: no default has been filled in and no index renumbered.
#[derive(Clone, Debug, PartialEq, Eq)]
pub struct PrimitiveData {
    pub material: Material,
    pub positions: Option<Vec<Vec3>>,
    pub normals: Option<Vec<Vec3>>,
    pub colors: Option<Vec<Vec4>>,
    pub uvs: Option<Vec<Vec2>>,
    pub indices: Option<Vec<u32>>,
}

/// A `CompiledScene` as plain mathematics.
pub struct SceneModel {
    pub positions: Seq<Vec3>,
    pub colors: Seq<Vec4>,
    pub uvs: Seq<Vec2>,
    pub normals: Seq<Vec3>,
    pub indices: Seq<u32>,
    pub materials: Seq<Material>,
    pub mesh_draws: Seq<MeshDraw>,
    pub cameras: Seq<Camera>,
}

/// A `PrimitiveData` as plain mathematics.
pub struct PrimitiveModel {
    pub material: Material,
    pub positions: Option<Seq<Vec3>>,
    pub normals: Option<Seq<Vec3>>,
    pub colors: Option<Seq<Vec4>>,
    pub uvs: Option<Seq<Vec2>>,
    pub indices: Option<Seq<u32>>,
}

/// The contents of an optional vector.
pub open spec fn contents<T>(items: Option<Vec<T>>) -> Option<Seq<T>> {
    match items {
        Some(v) => Some(v@),
        None => None,
    }
}

impl View for CompiledScene {
    type V = SceneModel;

    open spec fn view(&self) -> SceneModel {
        SceneModel {
            positions: self.positions@,
            colors: self.colors@,
            uvs: self.uvs@,
            normals: self.normals@,
            indices: self.indices@,
            materials: self.materials@,
            mesh_draws: self.mesh_draws@,
            cameras: self.cameras@,
        }
    }
}

impl View for PrimitiveData {
    type V = PrimitiveModel;

    open spec fn view(&self) -> PrimitiveModel {
        PrimitiveModel {
            material: self.material,
            positions: contents(self.positions),
            normals: contents(self.normals),
            colors: contents(self.colors),
            uvs: contents(self.uvs),
            indices: contents(self.indices),
        }
    }
}

impl PrimitiveModel {
    /// The number of vertices: as many as there are positions.
    pub open spec fn vertex_count(self) -> nat {
        match self.positions {
            Some(positions) => positions.len(),
            None => 0,
        }
    }

    /// The normals, or a zero vector for every vertex.
    pub open spec fn normals_or_default(self) -> Seq<Vec3> {
        match self.normals {
            Some(normals) => normals,
            None => Seq::new(self.vertex_count(), |i: int| Vec3::zero()),
        }
    }

    /// The colours, or opaque white for every vertex.
    pub open spec fn colors_or_default(self) -> Seq<Vec4> {
        match self.colors {
            Some(colors) => colors,
            None => Seq::new(self.vertex_count(), |i: int| Vec4::one()),
        }
    }

    /// The texture coordinates, or the origin for every vertex.
    pub open spec fn uvs_or_default(self) -> Seq<Vec2> {
        match self.uvs {
            Some(uvs) => uvs,
            None => Seq::new(self.vertex_count(), |i: int| Vec2::zero()),
        }
    }

    /// The indices as the primitive counts them, from zero; without an index
    /// accessor every vertex is taken once, in order.
    pub open spec fn local_indices(self) -> Seq<u32> {
        match self.indices {
            Some(indices) => indices,
            None => Seq::new(self.vertex_count(), |i: int| i as u32),
        }
    }

    /// Every attribute that is present has one entry for each vertex.
    pub open spec fn aligned(self) -> bool {
        &&& self.normals matches Some(normals) ==> normals.len() == self.vertex_count()
        &&& self.colors matches Some(colors) ==> colors.len() == self.vertex_count()
        &&& self.uvs matches Some(uvs) ==> uvs.len() == self.vertex_count()
    }

    /// Every index that is present names a vertex of the primitive.
    pub open spec fn indices_in_range(self) -> bool {
        self.indices matches Some(indices) ==> forall|i: int|
            0 <= i < indices.len() ==> (#[trigger] indices[i]) < self.vertex_count()
    }
}

/// Local indices moved up by `base`.
pub open spec fn renumbered(local: Seq<u32>, base: nat) -> Seq<u32> {
    Seq::new(local.len(), |i: int| (local[i] + base) as u32)
}

impl SceneModel {
    /// The scene before anything has been compiled into it.
    pub open spec fn empty() -> SceneModel {
        SceneModel {
            positions: Seq::empty(),
            colors: Seq::empty(),
            uvs: Seq::empty(),
            normals: Seq::empty(),
            indices: Seq::empty(),
            materials: Seq::empty(),
            mesh_draws: Seq::empty(),
            cameras: Seq::empty(),
        }
    }

    /// Whether `primitive` can be taken in. One without positions always
    /// can: it is skipped. Another must be aligned, must index its own
    /// vertices only, and must leave every vertex, index and material
    /// numbered by 32 bits.
    pub open spec fn accepts(self, primitive: PrimitiveModel) -> bool {
        primitive.positions is Some ==> {
            &&& primitive.aligned()
            &&& primitive.indices_in_range()
            &&& self.positions.len() + primitive.vertex_count() <= u32::MAX
            &&& self.indices.len() + primitive.local_indices().len() <= u32::MAX
            &&& self.materials.len() <= u32::MAX
        }
    }

    /// The draw record of a primitive that is appended to this scene.
    pub open spec fn next_draw(self, primitive: PrimitiveModel, transform: Mat4) -> MeshDraw {
        MeshDraw {
            start_idx: self.indices.len() as u32,
            num_indices: primitive.local_indices().len() as u32,
            material_idx: self.materials.len() as u32,
            transform_matrix: transform,
        }
    }

    /// The scene after `primitive` has been taken in under `transform`.
    ///
    /// Its material is recorded first, in any case. Without positions
    /// nothing else happens. With them its vertices go to the end of the
    /// streams, missing attributes filled with their defaults, its indices
    /// follow the index stream, moved up by the number of vertices that were
    /// there before, and a draw record tells where they lie.
    pub open spec fn with_primitive(self, primitive: PrimitiveModel, transform: Mat4) -> SceneModel {
        match primitive.positions {
            None => SceneModel { materials: self.materials.push(primitive.material), ..self },
            Some(positions) => SceneModel {
                positions: self.positions + positions,
                colors: self.colors + primitive.colors_or_default(),
                uvs: self.uvs + primitive.uvs_or_default(),
                normals: self.normals + primitive.normals_or_default(),
                indices: self.indices + renumbered(
                    primitive.local_indices(),
                    self.positions.len(),
                ),
                materials: self.materials.push(primitive.material),
                mesh_draws: self.mesh_draws.push(self.next_draw(primitive, transform)),
                cameras: self.cameras,
            },
        }
    }

    /// The index at which draw `k` has to begin: where draw `k - 1` ends.
    pub open spec fn draw_start(self, k: int) -> int {
        if k <= 0 {
            0
        } else {
            self.mesh_draws[k - 1].start_idx + self.mesh_draws[k - 1].num_indices
        }
    }

    /// The vertex streams have one entry for each position.
    pub open spec fn streams_aligned(self) -> bool {
        &&& self.colors.len() == self.positions.len()
        &&& self.uvs.len() == self.positions.len()
        &&& self.normals.len() == self.positions.len()
    }

    /// Every index names a position.
    pub open spec fn indices_valid(self) -> bool {
        forall|i: int| 0 <= i < self.indices.len() ==> (#[trigger] self.indices[i]) < self.positions.len()
    }

    /// The draws cover the index stream from its first index to its last,
    /// one after the other, without a gap and without overlap.
    pub open spec fn draws_tile(self) -> bool {
        &&& forall|k: int|
            0 <= k < self.mesh_draws.len() ==> (#[trigger] self.mesh_draws[k]).start_idx
                == self.draw_start(k)
        &&& self.draw_start(self.mesh_draws.len() as int) == self.indices.len()
    }

    /// Every draw names a material of the scene.
    pub open spec fn materials_valid(self) -> bool {
        forall|k: int|
            0 <= k < self.mesh_draws.len() ==> (#[trigger] self.mesh_draws[k]).material_idx
                < self.materials.len()
    }

    /// What holds of every scene that this library builds.
    pub open spec fn well_formed(self) -> bool {
        &&& self.streams_aligned()
        &&& self.indices_valid()
        &&& self.draws_tile()
        &&& self.materials_valid()
    }
}

impl Material {
    pub fn new(base_color_factor: Vec4, texture_index: Option<usize>) -> (material: Material)
        ensures
            material.metallic_roughness.base_color_factor == base_color_factor,
            material.metallic_roughness.texture_index == texture_index,
    {
        Material { metallic_roughness: PbrMetallicRoughness { base_color_factor, texture_index } }
    }
}

/// A vector of `count` copies of `value`.
fn filled<T: Copy>(count: usize, value: T) -> (items: Vec<T>)
    ensures
        items@ == Seq::new(count as nat, |i: int| value),
{
    let mut items: Vec<T> = Vec::new();
    let mut i: usize = 0;
    while i < count
        invariant
            i <= count,
            items@ == Seq::new(i as nat, |k: int| value),
        decreases count - i,
    {
        items.push(value);
        i = i + 1;
    }
    items
}

/// Whether every index is below `count`.
fn all_below(indices: &Vec<u32>, count: usize) -> (ok: bool)
    ensures
        ok <==> forall|i: int| 0 <= i < indices@.len() ==> (#[trigger] indices@[i]) < count,
{
    let mut i: usize = 0;
    while i < indices.len()
        invariant
            i <= indices@.len(),
            forall|k: int| 0 <= k < i ==> (#[trigger] indices@[k]) < count,
        decreases indices@.len() - i,
    {
        if indices[i] as usize >= count {
            return false;
        }
        i = i + 1;
    }
    true
}

/// The indices of a primitive moved up by `base`.
fn renumber(indices: &Vec<u32>, base: u32) -> (moved: Vec<u32>)
    requires
        forall|i: int| 0 <= i < indices@.len() ==> (#[trigger] indices@[i]) + base <= u32::MAX,
    ensures
        moved@ == renumbered(indices@, base as nat),
{
    let mut moved: Vec<u32> = Vec::new();
    let mut i: usize = 0;
    while i < indices.len()
        invariant
            i <= indices@.len(),
            forall|k: int| 0 <= k < indices@.len() ==> (#[trigger] indices@[k]) + base <= u32::MAX,
            moved@ == renumbered(indices@.take(i as int), base as nat),
        decreases indices@.len() - i,
    {
        moved.push(indices[i] + base);
        assert(moved@ =~= renumbered(indices@.take(i + 1), base as nat));
        i = i + 1;
    }
    assert(indices@.take(i as int) =~= indices@);
    moved
}

/// The indices `base`, `base + 1`, and so on, `count` of them.
fn sequential(count: u32, base: u32) -> (indices: Vec<u32>)
    requires
        base + count <= u32::MAX,
    ensures
        indices@ == renumbered(Seq::new(count as nat, |i: int| i as u32), base as nat),
{
    let mut indices: Vec<u32> = Vec::new();
    let mut i: u32 = 0;
    while i < count
        invariant
            i <= count,
            base + count <= u32::MAX,
            indices@ == renumbered(Seq::new(i as nat, |k: int| k as u32), base as nat),
        decreases count - i,
    {
        indices.push(i + base);
        assert(indices@ =~= renumbered(Seq::new((i + 1) as nat, |k: int| k as u32), base as nat));
        i = i + 1;
    }
    indices
}

impl CompiledScene {
    /// A scene with nothing in it.
    pub fn new() -> (scene: CompiledScene)
        ensures
            scene@ == SceneModel::empty(),
    {
        CompiledScene {
            positions: Vec::new(),
            colors: Vec::new(),
            uvs: Vec::new(),
            normals: Vec::new(),
            indices: Vec::new(),
            materials: Vec::new(),
            mesh_draws: Vec::new(),
            cameras: Vec::new(),
        }
    }

    /// Takes one primitive into the scene, under the world transform of its
    /// node.
    ///
    /// A primitive that the scene does not accept is a read error and leaves
    /// the scene as it was.
    pub fn extract_primitive(&mut self, primitive: PrimitiveData, transform: Mat4) -> (done: Result<
        (),
        GltfSceneError,
    >)
        ensures
            match done {
                Ok(()) => old(self)@.accepts(primitive@) && final(self)@ == old(self)@.with_primitive(
                    primitive@,
                    transform,
                ),
                Err(e) => !old(self)@.accepts(primitive@) && e == GltfSceneError::PrimitiveRead
                    && final(self)@ == old(self)@,
            },
    {
        let ghost model = primitive@;
        let ghost before = self@;
        let PrimitiveData { material, positions, normals, colors, uvs, indices } = primitive;
        let mut positions = match positions {
            Some(positions) => positions,
            None => {
                self.materials.push(material);
                assert(self@ == before.with_primitive(model, transform));
                return Ok(());
            },
        };
        let count: usize = positions.len();
        let base: usize = self.positions.len();
        let start: usize = self.indices.len();
        let limit: usize = u32::MAX as usize;
        let aligned: bool = (match &normals {
            Some(normals) => normals.len() == count,
            None => true,
        }) && (match &colors {
            Some(colors) => colors.len() == count,
            None => true,
        }) && (match &uvs {
            Some(uvs) => uvs.len() == count,
            None => true,
        });
        if !aligned {
            return Err(GltfSceneError::PrimitiveRead);
        }
        let in_range: bool = match &indices {
            Some(indices) => all_below(indices, count),
            None => true,
        };
        if !in_range {
            return Err(GltfSceneError::PrimitiveRead);
        }
        let local_len: usize = match &indices {
            Some(indices) => indices.len(),
            None => count,
        };
        if base > limit || count > limit - base || start > limit || local_len > limit - start
            || self.materials.len() > limit {
            return Err(GltfSceneError::PrimitiveRead);
        }
        let mut moved: Vec<u32> = match &indices {
            Some(indices) => renumber(indices, base as u32),
            None => sequential(count as u32, base as u32),
        };
        let mut normals: Vec<Vec3> = match normals {
            Some(normals) => normals,
            None => filled(count, Vec3::zero()),
        };
        let mut colors: Vec<Vec4> = match colors {
            Some(colors) => colors,
            None => filled(count, Vec4::one()),
        };
        let mut uvs: Vec<Vec2> = match uvs {
            Some(uvs) => uvs,
            None => filled(count, Vec2::zero()),
        };
        let draw = MeshDraw {
            start_idx: start as u32,
            num_indices: local_len as u32,
            material_idx: self.materials.len() as u32,
            transform_matrix: transform,
        };
        self.materials.push(material);
        self.positions.append(&mut positions);
        self.colors.append(&mut colors);
        self.normals.append(&mut normals);
        self.uvs.append(&mut uvs);
        self.indices.append(&mut moved);
        self.mesh_draws.push(draw);
        assert(self@ == before.with_primitive(model, transform));
        Ok(())
    }
}

} // verus!
