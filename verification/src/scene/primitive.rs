//! Decoding the attributes of a mesh primitive from its accessors.

use crate::algebra::{Vec2, Vec3, Vec4};
use crate::scene::accessor::{
    data_of, elements, index_at, read_indices, read_rgbs, read_vec2s, read_vec3s, read_vec4s,
    resolve_data, rgb_at, vec2_at, vec3_at, vec4_at, ComponentType, Dimensions, ElementData, Layout,
    SourceAccessor, SourceView,
};
use crate::scene::compiled_scene::{contents, PrimitiveData, PrimitiveModel};
use crate::scene::document::SourcePrimitive;
use crate::scene::error::GltfSceneError;
use gltf::accessor::util::ItemIter;
use gltf::accessor::Iter;
use gltf::mesh::util::{ReadColors, ReadTexCoords};
use vstd::arithmetic::div_mod::lemma_fundamental_div_mod_converse;
use vstd::prelude::*;
use vstd::slice::slice_subrange;

verus! {

/// The colours that glTF's reader makes of integer colour components:
/// `bytes` holds the elements, `stride` bytes apart; `wide` components take
/// two bytes each, others one; with `alpha` an element has four components,
/// else three and the colour is opaque.
pub uninterp spec fn cast_colors(bytes: Seq<u8>, stride: nat, wide: bool, alpha: bool) -> Seq<Vec4>;

/// The texture coordinates that glTF's reader makes of integer components:
/// `bytes` holds the elements, `stride` bytes apart; `wide` components take
/// two bytes each, others one.
pub uninterp spec fn cast_tex_coords(bytes: Seq<u8>, stride: nat, wide: bool) -> Seq<Vec2>;

/// Casts three-byte colours with `gltf`'s `ReadColors::into_rgba_f32`.
/// Trusted: the result is what `cast_colors` names, and where `bytes` ends
/// with the last byte of an element that begins a whole number of strides
/// in, there is one colour for each element. The stride is at least the size
/// of an element, so that the reader never looks past `bytes`.
#[verifier::external_body]
fn cast_rgb_u8(bytes: &[u8], stride: usize) -> (colors: Vec<Vec4>)
    requires
        stride >= 3,
    ensures
        colors@ == cast_colors(bytes@, stride as nat, false, false),
        bytes@.len() >= 3 && (bytes@.len() - 3) % (stride as int) == 0 ==> colors@.len() == (
        bytes@.len() - 3) / (stride as int) + 1,
{
    ReadColors::RgbU8(Iter::Standard(ItemIter::new(bytes, stride)))
        .into_rgba_f32()
        .map(|c| Vec4 { x: c[0].to_bits(), y: c[1].to_bits(), z: c[2].to_bits(), w: c[3].to_bits() })
        .collect()
}

/// Casts four-byte colours with `gltf`'s `ReadColors::into_rgba_f32`.
/// Trusted: the result is what `cast_colors` names.
/// As above, the reader yields one item for each element that `bytes`
/// holds.
#[verifier::external_body]
fn cast_rgba_u8(bytes: &[u8], stride: usize) -> (colors: Vec<Vec4>)
    requires
        stride >= 4,
    ensures
        colors@ == cast_colors(bytes@, stride as nat, false, true),
        bytes@.len() >= 4 && (bytes@.len() - 4) % (stride as int) == 0 ==> colors@.len() == (
        bytes@.len() - 4) / (stride as int) + 1,
{
    ReadColors::RgbaU8(Iter::Standard(ItemIter::new(bytes, stride)))
        .into_rgba_f32()
        .map(|c| Vec4 { x: c[0].to_bits(), y: c[1].to_bits(), z: c[2].to_bits(), w: c[3].to_bits() })
        .collect()
}

/// Casts colours of three 16-bit components with `gltf`'s
/// `ReadColors::into_rgba_f32`. Trusted: the result is what `cast_colors`
/// names.
/// As above, the reader yields one item for each element that `bytes`
/// holds.
#[verifier::external_body]
fn cast_rgb_u16(bytes: &[u8], stride: usize) -> (colors: Vec<Vec4>)
    requires
        stride >= 6,
    ensures
        colors@ == cast_colors(bytes@, stride as nat, true, false),
        bytes@.len() >= 6 && (bytes@.len() - 6) % (stride as int) == 0 ==> colors@.len() == (
        bytes@.len() - 6) / (stride as int) + 1,
{
    ReadColors::RgbU16(Iter::Standard(ItemIter::new(bytes, stride)))
        .into_rgba_f32()
        .map(|c| Vec4 { x: c[0].to_bits(), y: c[1].to_bits(), z: c[2].to_bits(), w: c[3].to_bits() })
        .collect()
}

/// Casts colours of four 16-bit components with `gltf`'s
/// `ReadColors::into_rgba_f32`. Trusted: the result is what `cast_colors`
/// names.
/// As above, the reader yields one item for each element that `bytes`
/// holds.
#[verifier::external_body]
fn cast_rgba_u16(bytes: &[u8], stride: usize) -> (colors: Vec<Vec4>)
    requires
        stride >= 8,
    ensures
        colors@ == cast_colors(bytes@, stride as nat, true, true),
        bytes@.len() >= 8 && (bytes@.len() - 8) % (stride as int) == 0 ==> colors@.len() == (
        bytes@.len() - 8) / (stride as int) + 1,
{
    ReadColors::RgbaU16(Iter::Standard(ItemIter::new(bytes, stride)))
        .into_rgba_f32()
        .map(|c| Vec4 { x: c[0].to_bits(), y: c[1].to_bits(), z: c[2].to_bits(), w: c[3].to_bits() })
        .collect()
}

/// Casts texture coordinates of two bytes with `gltf`'s
/// `ReadTexCoords::into_f32`. Trusted: the result is what `cast_tex_coords`
/// names.
/// As above, the reader yields one item for each element that `bytes`
/// holds.
#[verifier::external_body]
fn cast_uv_u8(bytes: &[u8], stride: usize) -> (uvs: Vec<Vec2>)
    requires
        stride >= 2,
    ensures
        uvs@ == cast_tex_coords(bytes@, stride as nat, false),
        bytes@.len() >= 2 && (bytes@.len() - 2) % (stride as int) == 0 ==> uvs@.len() == (
        bytes@.len() - 2) / (stride as int) + 1,
{
    ReadTexCoords::U8(Iter::Standard(ItemIter::new(bytes, stride)))
        .into_f32()
        .map(|c| Vec2 { x: c[0].to_bits(), y: c[1].to_bits() })
        .collect()
}

/// Casts texture coordinates of two 16-bit components with `gltf`'s
/// `ReadTexCoords::into_f32`. Trusted: the result is what `cast_tex_coords`
/// names.
/// As above, the reader yields one item for each element that `bytes`
/// holds.
#[verifier::external_body]
fn cast_uv_u16(bytes: &[u8], stride: usize) -> (uvs: Vec<Vec2>)
    requires
        stride >= 4,
    ensures
        uvs@ == cast_tex_coords(bytes@, stride as nat, true),
        bytes@.len() >= 4 && (bytes@.len() - 4) % (stride as int) == 0 ==> uvs@.len() == (
        bytes@.len() - 4) / (stride as int) + 1,
{
    ReadTexCoords::U16(Iter::Standard(ItemIter::new(bytes, stride)))
        .into_f32()
        .map(|c| Vec2 { x: c[0].to_bits(), y: c[1].to_bits() })
        .collect()
}

/// The bytes that the elements of a layout span, from the first byte of the
/// first element to the last byte of the last.
pub open spec fn span(bytes: Seq<u8>, layout: Layout) -> Seq<u8> {
    bytes.subrange(layout.start as int, layout.at(layout.count - 1) + layout.size)
}

/// The accessor in `slot` with the bytes and the layout of its elements:
/// `Ok(None)` for an empty slot or an accessor that holds no data.
///
/// An accessor that the document does not hold makes the document
/// malformed; one that does not hold `kinds` is a read error, and so is
/// every fault that `data_of` finds.
pub open spec fn slot_data(
    accessors: Seq<SourceAccessor>,
    views: Seq<SourceView>,
    buffers: Seq<Vec<u8>>,
    slot: Option<usize>,
    kinds: spec_fn(SourceAccessor) -> bool,
) -> Result<Option<(SourceAccessor, Seq<u8>, Layout)>, GltfSceneError> {
    match slot {
        None => Ok(None),
        Some(index) => {
            if index >= accessors.len() {
                Err(GltfSceneError::MalformedDocument)
            } else if !kinds(accessors[index as int]) {
                Err(GltfSceneError::PrimitiveRead)
            } else {
                match data_of(accessors[index as int], views, buffers) {
                    Err(e) => Err(e),
                    Ok(None) => Ok(None),
                    Ok(Some((bytes, layout))) => Ok(Some((accessors[index as int], bytes, layout))),
                }
            }
        },
    }
}

/// Positions and normals are three single-precision components.
pub open spec fn is_vec3(accessor: SourceAccessor) -> bool {
    accessor.holds(ComponentType::F32, Dimensions::Vec3)
}

/// Colours have three or four components: bytes, 16-bit integers or single
/// precision.
pub open spec fn is_color(accessor: SourceAccessor) -> bool {
    &&& accessor.dimensions == Dimensions::Vec3 || accessor.dimensions == Dimensions::Vec4
    &&& accessor.component == ComponentType::U8 || accessor.component == ComponentType::U16
        || accessor.component == ComponentType::F32
}

/// Texture coordinates have two components: bytes, 16-bit integers or
/// single precision.
pub open spec fn is_tex_coord(accessor: SourceAccessor) -> bool {
    &&& accessor.dimensions == Dimensions::Vec2
    &&& accessor.component == ComponentType::U8 || accessor.component == ComponentType::U16
        || accessor.component == ComponentType::F32
}

/// Indices are single unsigned integers.
pub open spec fn is_index(accessor: SourceAccessor) -> bool {
    &&& accessor.dimensions == Dimensions::Scalar
    &&& accessor.component == ComponentType::U8 || accessor.component == ComponentType::U16
        || accessor.component == ComponentType::U32
}

/// The vectors of an accessor of three single-precision components.
pub open spec fn vec3_stream(
    accessors: Seq<SourceAccessor>,
    views: Seq<SourceView>,
    buffers: Seq<Vec<u8>>,
    slot: Option<usize>,
) -> Result<Option<Seq<Vec3>>, GltfSceneError> {
    match slot_data(accessors, views, buffers, slot, |a: SourceAccessor| is_vec3(a)) {
        Err(e) => Err(e),
        Ok(None) => Ok(None),
        Ok(Some((accessor, bytes, layout))) => Ok(
            Some(elements(bytes, layout, |b: Seq<u8>, at: int| vec3_at(b, at))),
        ),
    }
}

/// The colours of a colour accessor, as RGBA in single precision.
pub open spec fn color_stream(
    accessors: Seq<SourceAccessor>,
    views: Seq<SourceView>,
    buffers: Seq<Vec<u8>>,
    slot: Option<usize>,
) -> Result<Option<Seq<Vec4>>, GltfSceneError> {
    match slot_data(accessors, views, buffers, slot, |a: SourceAccessor| is_color(a)) {
        Err(e) => Err(e),
        Ok(None) => Ok(None),
        Ok(Some((accessor, bytes, layout))) => {
            let alpha = accessor.dimensions == Dimensions::Vec4;
            Ok(
                Some(
                    if accessor.component == ComponentType::F32 {
                        if alpha {
                            elements(bytes, layout, |b: Seq<u8>, at: int| vec4_at(b, at))
                        } else {
                            elements(bytes, layout, |b: Seq<u8>, at: int| rgb_at(b, at))
                        }
                    } else {
                        cast_colors(
                            span(bytes, layout),
                            layout.stride as nat,
                            accessor.component == ComponentType::U16,
                            alpha,
                        )
                    },
                ),
            )
        },
    }
}

/// The texture coordinates of an accessor, in single precision.
pub open spec fn tex_coord_stream(
    accessors: Seq<SourceAccessor>,
    views: Seq<SourceView>,
    buffers: Seq<Vec<u8>>,
    slot: Option<usize>,
) -> Result<Option<Seq<Vec2>>, GltfSceneError> {
    match slot_data(accessors, views, buffers, slot, |a: SourceAccessor| is_tex_coord(a)) {
        Err(e) => Err(e),
        Ok(None) => Ok(None),
        Ok(Some((accessor, bytes, layout))) => {
            Ok(
                Some(
                    if accessor.component == ComponentType::F32 {
                        elements(bytes, layout, |b: Seq<u8>, at: int| vec2_at(b, at))
                    } else {
                        cast_tex_coords(
                            span(bytes, layout),
                            layout.stride as nat,
                            accessor.component == ComponentType::U16,
                        )
                    },
                ),
            )
        },
    }
}

/// The indices of an index accessor, widened to 32 bits.
pub open spec fn index_stream(
    accessors: Seq<SourceAccessor>,
    views: Seq<SourceView>,
    buffers: Seq<Vec<u8>>,
    slot: Option<usize>,
) -> Result<Option<Seq<u32>>, GltfSceneError> {
    match slot_data(accessors, views, buffers, slot, |a: SourceAccessor| is_index(a)) {
        Err(e) => Err(e),
        Ok(None) => Ok(None),
        Ok(Some((accessor, bytes, layout))) => Ok(
            Some(elements(bytes, layout, |b: Seq<u8>, at: int| index_at(b, at, layout.size as nat))),
        ),
    }
}

/// The decoded primitive. Positions are read first; a primitive without
/// them has nothing else read. Then come normals, colours, texture
/// coordinates and indices, and the first fault met is the error.
pub open spec fn decoded(
    accessors: Seq<SourceAccessor>,
    views: Seq<SourceView>,
    buffers: Seq<Vec<u8>>,
    primitive: SourcePrimitive,
) -> Result<PrimitiveModel, GltfSceneError> {
    let absent = PrimitiveModel {
        material: primitive.material,
        positions: None,
        normals: None,
        colors: None,
        uvs: None,
        indices: None,
    };
    match vec3_stream(accessors, views, buffers, primitive.positions) {
        Err(e) => Err(e),
        Ok(None) => Ok(absent),
        Ok(Some(positions)) => match vec3_stream(accessors, views, buffers, primitive.normals) {
            Err(e) => Err(e),
            Ok(normals) => match color_stream(accessors, views, buffers, primitive.colors) {
                Err(e) => Err(e),
                Ok(colors) => match tex_coord_stream(
                    accessors,
                    views,
                    buffers,
                    primitive.tex_coords,
                ) {
                    Err(e) => Err(e),
                    Ok(uvs) => match index_stream(accessors, views, buffers, primitive.indices) {
                        Err(e) => Err(e),
                        Ok(indices) => Ok(
                            PrimitiveModel {
                                material: primitive.material,
                                positions: Some(positions),
                                normals,
                                colors,
                                uvs,
                                indices,
                            },
                        ),
                    },
                },
            },
        },
    }
}

/// Whether the accessor holds `component` and `dimensions`.
fn holds(accessor: &SourceAccessor, component: ComponentType, dimensions: Dimensions) -> (b: bool)
    ensures
        b == accessor.holds(component, dimensions),
{
    accessor.component == component && accessor.dimensions == dimensions
}

fn check_color(accessor: &SourceAccessor) -> (b: bool)
    ensures
        b == is_color(*accessor),
{
    (accessor.dimensions == Dimensions::Vec3 || accessor.dimensions == Dimensions::Vec4) && (
    accessor.component == ComponentType::U8 || accessor.component == ComponentType::U16
        || accessor.component == ComponentType::F32)
}

fn check_tex_coord(accessor: &SourceAccessor) -> (b: bool)
    ensures
        b == is_tex_coord(*accessor),
{
    accessor.dimensions == Dimensions::Vec2 && (accessor.component == ComponentType::U8
        || accessor.component == ComponentType::U16 || accessor.component == ComponentType::F32)
}

fn check_index(accessor: &SourceAccessor) -> (b: bool)
    ensures
        b == is_index(*accessor),
{
    accessor.dimensions == Dimensions::Scalar && (accessor.component == ComponentType::U8
        || accessor.component == ComponentType::U16 || accessor.component == ComponentType::U32)
}

/// The bytes that the elements of a layout span.
fn span_of<'a>(bytes: &'a Vec<u8>, layout: &Layout) -> (part: &'a [u8])
    requires
        layout.fits(bytes@.len()),
    ensures
        part@ == span(bytes@, *layout),
        part@.len() == (layout.count - 1) * layout.stride + layout.size,
        (part@.len() - layout.size) % (layout.stride as int) == 0,
        (part@.len() - layout.size) / (layout.stride as int) + 1 == layout.count,
{
    let length: usize = bytes.len();
    proof {
        lemma_fundamental_div_mod_converse(
            (layout.count - 1) * layout.stride,
            layout.stride as int,
            layout.count - 1,
            0,
        );
    }
    assert(0 <= (layout.count - 1) * layout.stride) by (nonlinear_arith)
        requires
            layout.count >= 1,
            layout.stride >= 0,
    ;
    let end: usize = layout.start + (layout.count - 1) * layout.stride + layout.size;
    slice_subrange(bytes.as_slice(), layout.start, end)
}

/// Reads an attribute of three single-precision components.
pub fn read_vec3_stream(
    accessors: &Vec<SourceAccessor>,
    views: &Vec<SourceView>,
    buffers: &Vec<Vec<u8>>,
    slot: Option<usize>,
) -> (stream: Result<Option<Vec<Vec3>>, GltfSceneError>)
    ensures
        match stream {
            Ok(items) => vec3_stream(accessors@, views@, buffers@, slot) == Ok::<_, GltfSceneError>(
                contents(items),
            ),
            Err(e) => vec3_stream(accessors@, views@, buffers@, slot) == Err::<Option<Seq<Vec3>>, _>(e),
        },
        stream matches Ok(Some(items)) ==> slot matches Some(index) && index < accessors@.len()
            && items@.len() == accessors@[index as int].count,
{
    let index: usize = match slot {
        Some(index) => index,
        None => {
            return Ok(None);
        },
    };
    if index >= accessors.len() {
        return Err(GltfSceneError::MalformedDocument);
    }
    let accessor: SourceAccessor = accessors[index];
    if !holds(&accessor, ComponentType::F32, Dimensions::Vec3) {
        return Err(GltfSceneError::PrimitiveRead);
    }
    match resolve_data(&accessor, views, buffers) {
        Err(e) => Err(e),
        Ok(None) => Ok(None),
        Ok(Some(data)) => Ok(Some(read_vec3s(data.source(buffers), &data.layout))),
    }
}

/// Reads a colour attribute.
pub fn read_color_stream(
    accessors: &Vec<SourceAccessor>,
    views: &Vec<SourceView>,
    buffers: &Vec<Vec<u8>>,
    slot: Option<usize>,
) -> (stream: Result<Option<Vec<Vec4>>, GltfSceneError>)
    ensures
        match stream {
            Ok(items) => color_stream(accessors@, views@, buffers@, slot) == Ok::<_, GltfSceneError>(
                contents(items),
            ),
            Err(e) => color_stream(accessors@, views@, buffers@, slot) == Err::<Option<Seq<Vec4>>, _>(
                e,
            ),
        },
        stream matches Ok(Some(items)) ==> slot matches Some(index) && index < accessors@.len()
            && items@.len() == accessors@[index as int].count,
{
    let index: usize = match slot {
        Some(index) => index,
        None => {
            return Ok(None);
        },
    };
    if index >= accessors.len() {
        return Err(GltfSceneError::MalformedDocument);
    }
    let accessor: SourceAccessor = accessors[index];
    if !check_color(&accessor) {
        return Err(GltfSceneError::PrimitiveRead);
    }
    let data: ElementData = match resolve_data(&accessor, views, buffers) {
        Err(e) => {
            return Err(e);
        },
        Ok(None) => {
            return Ok(None);
        },
        Ok(Some(data)) => data,
    };
    let layout: Layout = data.layout;
    let bytes: &Vec<u8> = data.source(buffers);
    let alpha: bool = accessor.dimensions == Dimensions::Vec4;
    let colors: Vec<Vec4> = match accessor.component {
        ComponentType::F32 => if alpha {
            read_vec4s(bytes, &layout)
        } else {
            read_rgbs(bytes, &layout)
        },
        ComponentType::U16 => if alpha {
            cast_rgba_u16(span_of(bytes, &layout), layout.stride)
        } else {
            cast_rgb_u16(span_of(bytes, &layout), layout.stride)
        },
        _ => if alpha {
            cast_rgba_u8(span_of(bytes, &layout), layout.stride)
        } else {
            cast_rgb_u8(span_of(bytes, &layout), layout.stride)
        },
    };
    Ok(Some(colors))
}

/// Reads a texture coordinate attribute.
pub fn read_tex_coord_stream(
    accessors: &Vec<SourceAccessor>,
    views: &Vec<SourceView>,
    buffers: &Vec<Vec<u8>>,
    slot: Option<usize>,
) -> (stream: Result<Option<Vec<Vec2>>, GltfSceneError>)
    ensures
        match stream {
            Ok(items) => tex_coord_stream(accessors@, views@, buffers@, slot) == Ok::<
                _,
                GltfSceneError,
            >(contents(items)),
            Err(e) => tex_coord_stream(accessors@, views@, buffers@, slot) == Err::<
                Option<Seq<Vec2>>,
                _,
            >(e),
        },
        stream matches Ok(Some(items)) ==> slot matches Some(index) && index < accessors@.len()
            && items@.len() == accessors@[index as int].count,
{
    let index: usize = match slot {
        Some(index) => index,
        None => {
            return Ok(None);
        },
    };
    if index >= accessors.len() {
        return Err(GltfSceneError::MalformedDocument);
    }
    let accessor: SourceAccessor = accessors[index];
    if !check_tex_coord(&accessor) {
        return Err(GltfSceneError::PrimitiveRead);
    }
    let data: ElementData = match resolve_data(&accessor, views, buffers) {
        Err(e) => {
            return Err(e);
        },
        Ok(None) => {
            return Ok(None);
        },
        Ok(Some(data)) => data,
    };
    let layout: Layout = data.layout;
    let bytes: &Vec<u8> = data.source(buffers);
    let uvs: Vec<Vec2> = match accessor.component {
        ComponentType::F32 => read_vec2s(bytes, &layout),
        ComponentType::U16 => cast_uv_u16(span_of(bytes, &layout), layout.stride),
        _ => cast_uv_u8(span_of(bytes, &layout), layout.stride),
    };
    Ok(Some(uvs))
}

/// Reads the indices of a primitive.
pub fn read_index_stream(
    accessors: &Vec<SourceAccessor>,
    views: &Vec<SourceView>,
    buffers: &Vec<Vec<u8>>,
    slot: Option<usize>,
) -> (stream: Result<Option<Vec<u32>>, GltfSceneError>)
    ensures
        match stream {
            Ok(items) => index_stream(accessors@, views@, buffers@, slot) == Ok::<_, GltfSceneError>(
                contents(items),
            ),
            Err(e) => index_stream(accessors@, views@, buffers@, slot) == Err::<Option<Seq<u32>>, _>(
                e,
            ),
        },
        stream matches Ok(Some(items)) ==> slot matches Some(index) && index < accessors@.len()
            && items@.len() == accessors@[index as int].count,
{
    let index: usize = match slot {
        Some(index) => index,
        None => {
            return Ok(None);
        },
    };
    if index >= accessors.len() {
        return Err(GltfSceneError::MalformedDocument);
    }
    let accessor: SourceAccessor = accessors[index];
    if !check_index(&accessor) {
        return Err(GltfSceneError::PrimitiveRead);
    }
    match resolve_data(&accessor, views, buffers) {
        Err(e) => Err(e),
        Ok(None) => Ok(None),
        Ok(Some(data)) => Ok(Some(read_indices(data.source(buffers), &data.layout))),
    }
}

/// Decodes every attribute of a primitive.
pub fn decode_primitive(
    accessors: &Vec<SourceAccessor>,
    views: &Vec<SourceView>,
    buffers: &Vec<Vec<u8>>,
    primitive: &SourcePrimitive,
) -> (data: Result<PrimitiveData, GltfSceneError>)
    ensures
        match data {
            Ok(d) => decoded(accessors@, views@, buffers@, *primitive) == Ok::<_, GltfSceneError>(d@),
            Err(e) => decoded(accessors@, views@, buffers@, *primitive) == Err::<PrimitiveModel, _>(
                e,
            ),
        },
{
    let positions: Vec<Vec3> = match read_vec3_stream(accessors, views, buffers, primitive.positions) {
        Err(e) => {
            return Err(e);
        },
        Ok(None) => {
            return Ok(
                PrimitiveData {
                    material: primitive.material,
                    positions: None,
                    normals: None,
                    colors: None,
                    uvs: None,
                    indices: None,
                },
            );
        },
        Ok(Some(positions)) => positions,
    };
    let normals = match read_vec3_stream(accessors, views, buffers, primitive.normals) {
        Err(e) => {
            return Err(e);
        },
        Ok(normals) => normals,
    };
    let colors = match read_color_stream(accessors, views, buffers, primitive.colors) {
        Err(e) => {
            return Err(e);
        },
        Ok(colors) => colors,
    };
    let uvs = match read_tex_coord_stream(accessors, views, buffers, primitive.tex_coords) {
        Err(e) => {
            return Err(e);
        },
        Ok(uvs) => uvs,
    };
    let indices = match read_index_stream(accessors, views, buffers, primitive.indices) {
        Err(e) => {
            return Err(e);
        },
        Ok(indices) => indices,
    };
    Ok(
        PrimitiveData {
            material: primitive.material,
            positions: Some(positions),
            normals,
            colors,
            uvs,
            indices,
        },
    )
}

} // verus!
