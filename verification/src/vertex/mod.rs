//! The vertex record that a renderer uploads.

use crate::algebra::{Vec2, Vec3, Vec4};
use crate::scalar::ONE;
use crate::scene::compiled_scene::{CompiledScene, SceneModel};
use vstd::prelude::*;

verus! {

/// One vertex, padded to a multiple of sixteen bytes.
#[derive(Clone, Copy, Debug, PartialEq, Eq)]
pub struct Vertex {
    pub pos: Vec4,
    pub color: Vec4,
    pub uv: Vec2,
    pub pad: Vec2,
}

impl Vertex {
    /// The record of a vertex: its position as a point, with `1.0` for the
    /// fourth component, its colour and its texture coordinate.
    pub open spec fn of(position: Vec3, color: Vec4, uv: Vec2) -> Vertex {
        Vertex {
            pos: Vec4 { x: position.x, y: position.y, z: position.z, w: ONE },
            color,
            uv,
            pad: Vec2::zero(),
        }
    }

    /// The vertex records of a scene, one for each position.
    pub open spec fn interleaved(scene: SceneModel) -> Seq<Vertex> {
        Seq::new(
            scene.positions.len(),
            |i: int| Vertex::of(scene.positions[i], scene.colors[i], scene.uvs[i]),
        )
    }

    /// Interleaves the vertex streams of a scene into one buffer of records.
    pub fn buffer_data(scene: &CompiledScene) -> (vertices: Vec<Vertex>)
        requires
            scene@.streams_aligned(),
        ensures
            vertices@ == Vertex::interleaved(scene@),
    {
        let mut vertices: Vec<Vertex> = Vec::new();
        let mut idx: usize = 0;
        while idx < scene.positions.len()
            invariant
                idx <= scene.positions@.len(),
                scene@.streams_aligned(),
                vertices@.len() == idx,
                forall|k: int|
                    0 <= k < idx ==> (#[trigger] vertices@[k]) == Vertex::of(
                        scene.positions@[k],
                        scene.colors@[k],
                        scene.uvs@[k],
                    ),
            decreases scene.positions@.len() - idx,
        {
            let position: Vec3 = scene.positions[idx];
            vertices.push(
                Vertex {
                    pos: Vec4 { x: position.x, y: position.y, z: position.z, w: ONE },
                    color: scene.colors[idx],
                    uv: scene.uvs[idx],
                    pad: Vec2::zero(),
                },
            );
            idx = idx + 1;
        }
        assert(vertices@ =~= Vertex::interleaved(scene@));
        vertices
    }
}

} // verus!
