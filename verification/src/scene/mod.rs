//! The scene compiler: from a glTF document to flat buffers.

pub mod accessor;
pub mod buffer;
pub mod compiled_scene;
pub mod document;
pub mod error;
pub mod gltf_scene;
pub mod image;
pub mod laws;
pub mod primitive;
pub mod traversal;

pub use compiled_scene::CompiledScene;
pub use error::GltfSceneError;
pub use gltf_scene::GltfScene;
pub use image::ImageData as GltfImageData;
