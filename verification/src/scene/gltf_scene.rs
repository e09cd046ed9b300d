//! The scene compiler: a loaded document becomes a compiled scene.

use crate::algebra::Mat4;
use crate::camera::{Camera, CameraType, PerspectiveData, SourceProjection};
use crate::scene::accessor::{SourceAccessor, SourceView};
use crate::scene::buffer::{admit_buffer, admitted, SourceBuffer};
use crate::scene::compiled_scene::{CompiledScene, SceneModel};
use crate::scene::document::{SourceDocument, SourceMesh, SourceNode, SourcePrimitive};
use crate::scene::error::GltfSceneError;
use crate::scene::image::{ImageData, ImageModel, SourceImage};
use crate::scene::primitive::{decode_primitive, decoded};
use crate::scene::traversal::{traverse, walk, Visit};
use vstd::prelude::*;

verus! {

/// The root nodes of the scene to compile: those of the default scene, or
/// else of the first scene.
///
/// A document without any scene is an error of its own; a default scene
/// that the document does not hold makes it malformed.
pub open spec fn roots_of(document: SourceDocument) -> Result<Seq<usize>, GltfSceneError> {
    match document.default_scene {
        Some(index) => if index < document.scenes@.len() {
            Ok(document.scenes@[index as int].nodes@)
        } else {
            Err(GltfSceneError::MalformedDocument)
        },
        None => if document.scenes@.len() > 0 {
            Ok(document.scenes@[0].nodes@)
        } else {
            Err(GltfSceneError::NoDefaultScene)
        },
    }
}

/// The scene after one primitive has been decoded and taken in.
pub open spec fn after_primitive(
    document: SourceDocument,
    buffers: Seq<Vec<u8>>,
    scene: SceneModel,
    primitive: SourcePrimitive,
    world: Mat4,
) -> Result<SceneModel, GltfSceneError> {
    match decoded(document.accessors@, document.views@, buffers, primitive) {
        Err(e) => Err(e),
        Ok(data) => if scene.accepts(data) {
            Ok(scene.with_primitive(data, world))
        } else {
            Err(GltfSceneError::PrimitiveRead)
        },
    }
}

/// The scene after the primitives `primitives[from..]` have been taken in,
/// in order; the first that fails ends it.
pub open spec fn after_primitives(
    document: SourceDocument,
    buffers: Seq<Vec<u8>>,
    scene: SceneModel,
    primitives: Seq<SourcePrimitive>,
    from: nat,
    world: Mat4,
) -> Result<SceneModel, GltfSceneError>
    decreases primitives.len() - from,
{
    if from >= primitives.len() {
        Ok(scene)
    } else {
        match after_primitive(document, buffers, scene, primitives[from as int], world) {
            Err(e) => Err(e),
            Ok(next) => after_primitives(document, buffers, next, primitives, from + 1, world),
        }
    }
}

/// The scene after one node has been visited: the primitives of its mesh,
/// if it has one, are taken in under the node's world transform.
pub open spec fn after_visit(
    document: SourceDocument,
    buffers: Seq<Vec<u8>>,
    scene: SceneModel,
    visit: Visit,
) -> Result<SceneModel, GltfSceneError> {
    if visit.node >= document.nodes@.len() {
        Err(GltfSceneError::MalformedDocument)
    } else {
        match document.nodes@[visit.node as int].mesh {
            None => Ok(scene),
            Some(mesh) => if mesh >= document.meshes@.len() {
                Err(GltfSceneError::MalformedDocument)
            } else {
                after_primitives(
                    document,
                    buffers,
                    scene,
                    document.meshes@[mesh as int].primitives@,
                    0,
                    visit.world,
                )
            },
        }
    }
}

/// The scene after the nodes `visits[from..]` have been visited, in order.
pub open spec fn after_visits(
    document: SourceDocument,
    buffers: Seq<Vec<u8>>,
    scene: SceneModel,
    visits: Seq<Visit>,
    from: nat,
) -> Result<SceneModel, GltfSceneError>
    decreases visits.len() - from,
{
    if from >= visits.len() {
        Ok(scene)
    } else {
        match after_visit(document, buffers, scene, visits[from as int]) {
            Err(e) => Err(e),
            Ok(next) => after_visits(document, buffers, next, visits, from + 1),
        }
    }
}

/// The cameras of a compiled scene: one for each camera of the document,
/// in order, or the fallback camera alone when the document has none.
pub open spec fn cameras_of(sources: Seq<SourceProjection>) -> Seq<Camera> {
    if sources.len() == 0 {
        seq![Camera::fallback()]
    } else {
        Seq::new(sources.len(), |i: int| Camera::with_type(CameraType::of(sources[i])))
    }
}

/// What compiling a document gives.
///
/// The scene is chosen, its hierarchy walked, every node on the walk has the
/// primitives of its mesh taken in, and the cameras are added. Whatever
/// fails first is the error, and then there is no scene.
pub open spec fn compiled(document: SourceDocument, buffers: Seq<Vec<u8>>) -> Result<
    SceneModel,
    GltfSceneError,
> {
    match roots_of(document) {
        Err(e) => Err(e),
        Ok(roots) => match walk(document.nodes@, roots) {
            None => Err(GltfSceneError::MalformedDocument),
            Some(visits) => match after_visits(document, buffers, SceneModel::empty(), visits, 0) {
                Err(e) => Err(e),
                Ok(scene) => Ok(SceneModel { cameras: cameras_of(document.cameras@), ..scene }),
            },
        },
    }
}

/// Whether `scene` is what compiling `document` gives: the scene that
/// `compiled` describes, or its error.
pub open spec fn compiles_to(
    document: SourceDocument,
    buffers: Seq<Vec<u8>>,
    scene: Result<CompiledScene, GltfSceneError>,
) -> bool {
    match scene {
        Ok(s) => compiled(document, buffers) == Ok::<_, GltfSceneError>(s@),
        Err(e) => compiled(document, buffers) == Err::<SceneModel, _>(e),
    }
}

/// The images that a scene keeps of `sources[from..]`, after `kept`: every
/// source image normalized, in order. The first image refused ends it.
pub open spec fn images_from(sources: Seq<SourceImage>, from: nat, kept: Seq<ImageModel>) -> Result<
    Seq<ImageModel>,
    GltfSceneError,
>
    decreases sources.len() - from,
{
    if from >= sources.len() {
        Ok(kept)
    } else {
        match ImageModel::admitted(sources[from as int]) {
            Err(e) => Err(e),
            Ok(image) => images_from(sources, from + 1, kept.push(image)),
        }
    }
}

/// The buffers that a scene keeps of `sources[from..]`, after `kept`: every
/// source buffer admitted, in order. The first buffer refused ends it.
pub open spec fn buffers_from(sources: Seq<SourceBuffer>, from: nat, kept: Seq<Seq<u8>>) -> Result<
    Seq<Seq<u8>>,
    GltfSceneError,
>
    decreases sources.len() - from,
{
    if from >= sources.len() {
        Ok(kept)
    } else {
        match admitted(sources[from as int]) {
            Err(e) => Err(e),
            Ok(bytes) => buffers_from(sources, from + 1, kept.push(bytes)),
        }
    }
}

/// What a loaded scene holds, or why the scene is refused: buffers are
/// admitted first and then images are normalized, and a white pixel
/// follows the last image.
pub open spec fn loaded(buffers: Seq<SourceBuffer>, images: Seq<SourceImage>) -> Result<
    (Seq<Seq<u8>>, Seq<ImageModel>),
    GltfSceneError,
> {
    match buffers_from(buffers, 0, Seq::empty()) {
        Err(e) => Err(e),
        Ok(bytes) => match images_from(images, 0, Seq::empty()) {
            Err(e) => Err(e),
            Ok(kept) => Ok((bytes, kept.push(ImageModel::white()))),
        },
    }
}

/// The contents of each buffer.
pub open spec fn bytes_of(buffers: Seq<Vec<u8>>) -> Seq<Seq<u8>> {
    Seq::new(buffers.len(), |i: int| buffers[i]@)
}

/// The contents of each image.
pub open spec fn models_of(images: Seq<ImageData>) -> Seq<ImageModel> {
    Seq::new(images.len(), |i: int| images[i]@)
}

/// A loaded glTF scene: the document, the bytes of its buffers and its
/// images, normalized.
#[derive(Debug)]
pub struct GltfScene {
    gltf: SourceDocument,
    buffers: Vec<Vec<u8>>,
    images: Vec<ImageData>,
}

fn take_primitives(
    scene: &mut CompiledScene,
    document: &SourceDocument,
    buffers: &Vec<Vec<u8>>,
    primitives: &Vec<SourcePrimitive>,
    world: Mat4,
) -> (done: Result<(), GltfSceneError>)
    ensures
        match done {
            Ok(()) => after_primitives(*document, buffers@, old(scene)@, primitives@, 0, world)
                == Ok::<_, GltfSceneError>(final(scene)@),
            Err(e) => after_primitives(*document, buffers@, old(scene)@, primitives@, 0, world)
                == Err::<SceneModel, _>(e),
        },
{
    let ghost whole = after_primitives(*document, buffers@, scene@, primitives@, 0, world);
    let mut i: usize = 0;
    while i < primitives.len()
        invariant
            i <= primitives@.len(),
            whole == after_primitives(*document, buffers@, old(scene)@, primitives@, 0, world),
            whole == after_primitives(*document, buffers@, scene@, primitives@, i as nat, world),
        decreases primitives@.len() - i,
    {
        let data = match decode_primitive(
            &document.accessors,
            &document.views,
            buffers,
            &primitives[i],
        ) {
            Ok(data) => data,
            Err(e) => {
                return Err(e);
            },
        };
        match scene.extract_primitive(data, world) {
            Ok(()) => {},
            Err(e) => {
                return Err(e);
            },
        }
        i = i + 1;
    }
    Ok(())
}

fn take_visits(
    scene: &mut CompiledScene,
    document: &SourceDocument,
    buffers: &Vec<Vec<u8>>,
    visits: &Vec<Visit>,
) -> (done: Result<(), GltfSceneError>)
    ensures
        match done {
            Ok(()) => after_visits(*document, buffers@, old(scene)@, visits@, 0) == Ok::<
                _,
                GltfSceneError,
            >(final(scene)@),
            Err(e) => after_visits(*document, buffers@, old(scene)@, visits@, 0) == Err::<
                SceneModel,
                _,
            >(e),
        },
{
    let ghost whole = after_visits(*document, buffers@, scene@, visits@, 0);
    let mut i: usize = 0;
    while i < visits.len()
        invariant
            i <= visits@.len(),
            whole == after_visits(*document, buffers@, old(scene)@, visits@, 0),
            whole == after_visits(*document, buffers@, scene@, visits@, i as nat),
        decreases visits@.len() - i,
    {
        let visit: Visit = visits[i];
        if visit.node >= document.nodes.len() {
            return Err(GltfSceneError::MalformedDocument);
        }
        match document.nodes[visit.node].mesh {
            None => {},
            Some(mesh) => {
                if mesh >= document.meshes.len() {
                    return Err(GltfSceneError::MalformedDocument);
                }
                match take_primitives(
                    scene,
                    document,
                    buffers,
                    &document.meshes[mesh].primitives,
                    visit.world,
                ) {
                    Ok(()) => {},
                    Err(e) => {
                        return Err(e);
                    },
                }
            },
        }
        i = i + 1;
    }
    Ok(())
}

/// Turns the cameras of a document into the cameras of a scene.
pub fn extract_cameras(sources: &Vec<SourceProjection>) -> (cameras: Vec<Camera>)
    ensures
        cameras@ == cameras_of(sources@),
{
    let mut cameras: Vec<Camera> = Vec::new();
    let mut i: usize = 0;
    while i < sources.len()
        invariant
            i <= sources@.len(),
            cameras@.len() == i,
            forall|k: int|
                0 <= k < i ==> (#[trigger] cameras@[k]) == Camera::with_type(
                    CameraType::of(sources@[k]),
                ),
        decreases sources@.len() - i,
    {
        cameras.push(Camera::from_type(CameraType::from_projection(&sources[i])));
        i = i + 1;
    }
    if cameras.len() == 0 {
        cameras.push(Camera::from_type(CameraType::perspective(PerspectiveData::default())));
    }
    assert(cameras@ =~= cameras_of(sources@));
    cameras
}

/// Compiles a document with the bytes of its buffers.
pub fn compile_document(document: &SourceDocument, buffers: &Vec<Vec<u8>>) -> (scene: Result<
    CompiledScene,
    GltfSceneError,
>)
    ensures
        compiles_to(*document, buffers@, scene),
        scene matches Ok(s) ==> s@.well_formed(),
{
    proof {
        crate::scene::laws::lemma_compiled_scene_is_well_formed(*document, buffers@);
    }
    let roots: &Vec<usize> = match document.default_scene {
        Some(index) => {
            if index >= document.scenes.len() {
                return Err(GltfSceneError::MalformedDocument);
            }
            &document.scenes[index].nodes
        },
        None => {
            if document.scenes.len() == 0 {
                return Err(GltfSceneError::NoDefaultScene);
            }
            &document.scenes[0].nodes
        },
    };
    let visits: Vec<Visit> = match traverse(&document.nodes, roots) {
        Ok(visits) => visits,
        Err(e) => {
            return Err(e);
        },
    };
    let mut scene = CompiledScene::new();
    match take_visits(&mut scene, document, buffers, &visits) {
        Ok(()) => {},
        Err(e) => {
            return Err(e);
        },
    }
    scene.cameras = extract_cameras(&document.cameras);
    Ok(scene)
}

impl GltfScene {
    /// The document of the scene.
    pub closed spec fn document(&self) -> SourceDocument {
        self.gltf
    }

    /// The bytes of the buffers of the scene.
    pub closed spec fn buffer_bytes(&self) -> Seq<Vec<u8>> {
        self.buffers@
    }

    /// The images of the scene.
    pub closed spec fn image_models(&self) -> Seq<ImageModel> {
        models_of(self.images@)
    }

    /// Keeps a document that has been read, with its buffers and images.
    ///
    /// Buffers are admitted first and then images, each in order, and the
    /// first one refused is the error. A white pixel follows the last
    /// image, for materials without a texture.
    pub fn new(gltf: SourceDocument, buffers: Vec<SourceBuffer>, images: Vec<SourceImage>) -> (scene:
        Result<GltfScene, GltfSceneError>)
        requires
            forall|i: int|
                0 <= i < images@.len() && (#[trigger] images@[i]).format.supported()
                    ==> images@[i].fits(),
        ensures
            match scene {
                Ok(s) => s.document() == gltf && loaded(buffers@, images@) == Ok::<_, GltfSceneError>(
                    (bytes_of(s.buffer_bytes()), s.image_models()),
                ),
                Err(e) => loaded(buffers@, images@) == Err::<(Seq<Seq<u8>>, Seq<ImageModel>), _>(e),
            },
    {
        let mut kept_buffers: Vec<Vec<u8>> = Vec::new();
        let mut k: usize = 0;
        assert(bytes_of(kept_buffers@) =~= Seq::<Seq<u8>>::empty());
        while k < buffers.len()
            invariant
                k <= buffers@.len(),
                buffers_from(buffers@, 0, Seq::empty()) == buffers_from(
                    buffers@,
                    k as nat,
                    bytes_of(kept_buffers@),
                ),
            decreases buffers@.len() - k,
        {
            let ghost before = kept_buffers@;
            match admit_buffer(&buffers[k]) {
                Ok(bytes) => {
                    kept_buffers.push(bytes);
                    assert(bytes_of(kept_buffers@) =~= bytes_of(before).push(bytes@));
                },
                Err(e) => {
                    return Err(e);
                },
            }
            k = k + 1;
        }
        let mut kept_images: Vec<ImageData> = Vec::new();
        let mut j: usize = 0;
        assert(models_of(kept_images@) =~= Seq::<ImageModel>::empty());
        while j < images.len()
            invariant
                j <= images@.len(),
                forall|i: int|
                    0 <= i < images@.len() && (#[trigger] images@[i]).format.supported()
                        ==> images@[i].fits(),
                buffers_from(buffers@, 0, Seq::empty()) == Ok::<_, GltfSceneError>(
                    bytes_of(kept_buffers@),
                ),
                images_from(images@, 0, Seq::empty()) == images_from(
                    images@,
                    j as nat,
                    models_of(kept_images@),
                ),
            decreases images@.len() - j,
        {
            let ghost before = kept_images@;
            match ImageData::new(&images[j]) {
                Ok(image) => {
                    kept_images.push(image);
                    assert(models_of(kept_images@) =~= models_of(before).push(image@));
                },
                Err(e) => {
                    return Err(e);
                },
            }
            j = j + 1;
        }
        let ghost kept = kept_images@;
        kept_images.push(ImageData::white());
        assert(models_of(kept_images@) =~= models_of(kept).push(ImageModel::white()));
        Ok(GltfScene { gltf, buffers: kept_buffers, images: kept_images })
    }

    /// Compiles the scene.
    pub fn compile(&self) -> (scene: Result<CompiledScene, GltfSceneError>)
        ensures
            compiles_to(self.document(), self.buffer_bytes(), scene),
            scene matches Ok(s) ==> s@.well_formed(),
    {
        compile_document(&self.gltf, &self.buffers)
    }

    /// The bytes of every buffer, padded.
    pub fn buffer_data(&self) -> (buffers: &Vec<Vec<u8>>)
        ensures
            buffers@ == self.buffer_bytes(),
    {
        &self.buffers
    }

    /// The normalized images; the last one is the white pixel.
    pub fn image_data(&self) -> (images: &Vec<ImageData>)
        ensures
            models_of(images@) == self.image_models(),
    {
        &self.images
    }
}

} // verus!
