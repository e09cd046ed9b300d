//! What can stop a scene from loading or compiling.

use vstd::prelude::*;

verus! {

/// Every failure ends the call that met it: nothing is retried, and no
/// partly built scene is handed out.
#[derive(Clone, Debug, PartialEq, Eq)]
pub enum GltfSceneError {
    /// A buffer lives in the binary chunk of its container; only buffers
    /// named by a URI are read.
    BinaryBuffer,
    /// An image is stored in a buffer view and the reader at hand cannot
    /// decode it from there. The scene compiler itself takes every decoded
    /// image, wherever it was kept.
    ViewImage,
    /// Reading a file failed; the text says how.
    IoError(String),
    /// The document names no scene and holds none.
    NoDefaultScene,
    /// A source image has a pixel format outside the normalizer's table.
    UnsupportedImageFormat,
    /// A vertex or index accessor is malformed: a wrong component type, a
    /// wrong count, or data that its buffer does not hold.
    PrimitiveRead,
    /// The document refers to something it does not hold, or its nodes do
    /// not form a tree.
    MalformedDocument,
}

impl GltfSceneError {
    /// The text of the message, as a `Seq` of characters.
    pub open spec fn message_spec(self) -> Seq<char> {
        match self {
            GltfSceneError::BinaryBuffer => "Binary buffers not yet supporterd"@,
            GltfSceneError::ViewImage => "Image views not yet supporterd"@,
            GltfSceneError::IoError(text) => text@,
            GltfSceneError::NoDefaultScene => "Gltf file contained no default scene"@,
            GltfSceneError::UnsupportedImageFormat => "Image format not supported"@,
            GltfSceneError::PrimitiveRead => "Malformed vertex or index accessor"@,
            GltfSceneError::MalformedDocument => "Malformed gltf document"@,
        }
    }

    /// A description of the error for people to read.
    pub fn message(&self) -> (text: String)
        ensures
            text@ == self.message_spec(),
    {
        match self {
            GltfSceneError::BinaryBuffer => "Binary buffers not yet supporterd".to_owned(),
            GltfSceneError::ViewImage => "Image views not yet supporterd".to_owned(),
            GltfSceneError::IoError(text) => text.clone(),
            GltfSceneError::NoDefaultScene => "Gltf file contained no default scene".to_owned(),
            GltfSceneError::UnsupportedImageFormat => "Image format not supported".to_owned(),
            GltfSceneError::PrimitiveRead => "Malformed vertex or index accessor".to_owned(),
            GltfSceneError::MalformedDocument => "Malformed gltf document".to_owned(),
        }
    }
}

} // verus!
