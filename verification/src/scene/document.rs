//! A glTF document as plain values: what the compiler reads of it.

use crate::algebra::Mat4;
use crate::camera::SourceProjection;
use crate::scene::accessor::{SourceAccessor, SourceView};
use crate::scene::compiled_scene::Material;
use vstd::prelude::*;

verus! {

/// One drawable part of a mesh. Each attribute names the accessor that holds
/// it, if the primitive has it.
#[derive(Clone, Copy, Debug, PartialEq, Eq)]
pub struct SourcePrimitive {
    pub material: Material,
    pub positions: Option<usize>,
    pub normals: Option<usize>,
    pub colors: Option<usize>,
    pub tex_coords: Option<usize>,
    pub indices: Option<usize>,
}

/// A mesh: its primitives, in the order in which they are drawn.
#[derive(Clone, Debug)]
pub struct SourceMesh {
    pub primitives: Vec<SourcePrimitive>,
}

/// A node of the hierarchy.
#[derive(Clone, Debug)]
pub struct SourceNode {
    /// The transform of the node relative to its parent.
    pub transform: Mat4,
    /// Index of the mesh that the node holds.
    pub mesh: Option<usize>,
    /// Indices of the child nodes, in the order of the child list.
    pub children: Vec<usize>,
}

/// A scene: the indices of its root nodes.
#[derive(Clone, Debug)]
pub struct SourceScene {
    pub nodes: Vec<usize>,
}

/// A whole document. Buffers are kept beside it.
#[derive(Clone, Debug)]
pub struct SourceDocument {
    /// Index of the scene that the document asks to be shown.
    pub default_scene: Option<usize>,
    pub scenes: Vec<SourceScene>,
    pub nodes: Vec<SourceNode>,
    pub meshes: Vec<SourceMesh>,
    pub accessors: Vec<SourceAccessor>,
    pub views: Vec<SourceView>,
    pub cameras: Vec<SourceProjection>,
}

impl SourceDocument {
    /// A document that holds nothing.
    pub fn new() -> (document: SourceDocument)
        ensures
            document.default_scene is None,
            document.scenes@.len() == 0,
            document.nodes@.len() == 0,
            document.meshes@.len() == 0,
            document.accessors@.len() == 0,
            document.views@.len() == 0,
            document.cameras@.len() == 0,
    {
        SourceDocument {
            default_scene: None,
            scenes: Vec::new(),
            nodes: Vec::new(),
            meshes: Vec::new(),
            accessors: Vec::new(),
            views: Vec::new(),
            cameras: Vec::new(),
        }
    }
}

} // verus!
