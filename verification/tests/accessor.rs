use carbon::algebra::{Vec2, Vec3, Vec4};
use carbon::scene::accessor::{
    read_indices, read_vec3s, resolve, resolve_data, ComponentType, Dimensions, Layout,
    SourceAccessor, SourceSparse, SourceView,
};
use carbon::scene::primitive::{
    read_color_stream, read_index_stream, read_tex_coord_stream, read_vec3_stream,
};
use carbon::scene::GltfSceneError;

fn le(values: &[f32]) -> Vec<u8> {
    values.iter().flat_map(|v| v.to_le_bytes()).collect()
}

fn v3(x: f32, y: f32, z: f32) -> Vec3 {
    Vec3::new(x.to_bits(), y.to_bits(), z.to_bits())
}

fn v4(x: f32, y: f32, z: f32, w: f32) -> Vec4 {
    Vec4::new(x.to_bits(), y.to_bits(), z.to_bits(), w.to_bits())
}

fn view(length: usize) -> SourceView {
    SourceView { buffer: 0, offset: 0, length, stride: None }
}

fn accessor(count: usize, component: ComponentType, dimensions: Dimensions) -> SourceAccessor {
    SourceAccessor { view: Some(0), offset: 0, count, component, dimensions, sparse: None }
}

#[test]
fn packed_vectors_are_read_in_order() {
    let buffers = vec![le(&[1.0, 2.0, 3.0, 4.0, 5.0, 6.0])];
    let accessors = vec![accessor(2, ComponentType::F32, Dimensions::Vec3)];
    let views = vec![view(24)];
    assert_eq!(
        read_vec3_stream(&accessors, &views, &buffers, Some(0)),
        Ok(Some(vec![v3(1.0, 2.0, 3.0), v3(4.0, 5.0, 6.0)]))
    );
}

#[test]
fn strided_vectors_skip_the_bytes_between() {
    let mut bytes = vec![0xaa; 4];
    bytes.extend(le(&[1.0, 2.0, 3.0]));
    bytes.extend([0xbb; 4]);
    bytes.extend(le(&[4.0, 5.0, 6.0]));
    let buffers = vec![vec![], bytes];
    let views = vec![SourceView { buffer: 1, offset: 2, length: 30, stride: Some(16) }];
    let mut positions = accessor(2, ComponentType::F32, Dimensions::Vec3);
    positions.offset = 2;
    assert_eq!(
        resolve(&positions, &views, &buffers),
        Ok(Some(Layout { buffer: 1, start: 4, stride: 16, count: 2, size: 12 }))
    );
    assert_eq!(
        read_vec3_stream(&vec![positions], &views, &buffers, Some(0)),
        Ok(Some(vec![v3(1.0, 2.0, 3.0), v3(4.0, 5.0, 6.0)]))
    );
}

#[test]
fn words_are_little_endian() {
    let bytes = vec![0x01, 0x02, 0x03, 0x04, 0x05, 0x06, 0x07, 0x08, 0x09, 0x0a, 0x0b, 0x0c];
    let layout = Layout { buffer: 0, start: 0, stride: 12, count: 1, size: 12 };
    assert_eq!(read_vec3s(&bytes, &layout), vec![Vec3::new(0x04030201, 0x08070605, 0x0c0b0a09)]);
}

#[test]
fn indices_of_every_width_are_widened() {
    let bytes = vec![0x01, 0x02, 0x03, 0x04, 0xff, 0xff, 0xff, 0xff];
    let narrow = Layout { buffer: 0, start: 0, stride: 1, count: 4, size: 1 };
    assert_eq!(read_indices(&bytes, &narrow), vec![1, 2, 3, 4]);
    let medium = Layout { buffer: 0, start: 0, stride: 2, count: 3, size: 2 };
    assert_eq!(read_indices(&bytes, &medium), vec![0x0201, 0x0403, 0xffff]);
    let wide = Layout { buffer: 0, start: 0, stride: 4, count: 2, size: 4 };
    assert_eq!(read_indices(&bytes, &wide), vec![0x04030201, 0xffffffff]);
}

#[test]
fn index_stream_takes_unsigned_scalars_only() {
    let buffers = vec![vec![0, 0, 1, 0, 2, 0, 0, 0]];
    let views = vec![view(8)];
    let shorts = vec![accessor(3, ComponentType::U16, Dimensions::Scalar)];
    assert_eq!(read_index_stream(&shorts, &views, &buffers, Some(0)), Ok(Some(vec![0, 1, 2])));
    for (component, dimensions) in [
        (ComponentType::F32, Dimensions::Scalar),
        (ComponentType::I16, Dimensions::Scalar),
        (ComponentType::I8, Dimensions::Scalar),
        (ComponentType::U16, Dimensions::Vec2),
    ] {
        let wrong = vec![accessor(1, component, dimensions)];
        assert_eq!(
            read_index_stream(&wrong, &views, &buffers, Some(0)),
            Err(GltfSceneError::PrimitiveRead)
        );
    }
}

#[test]
fn positions_must_be_three_single_precision_components() {
    let buffers = vec![vec![0; 64]];
    let views = vec![view(64)];
    for (component, dimensions) in [
        (ComponentType::F32, Dimensions::Vec2),
        (ComponentType::F32, Dimensions::Vec4),
        (ComponentType::U32, Dimensions::Vec3),
        (ComponentType::U16, Dimensions::Vec3),
        (ComponentType::F32, Dimensions::Mat3),
    ] {
        let wrong = vec![accessor(1, component, dimensions)];
        assert_eq!(
            read_vec3_stream(&wrong, &views, &buffers, Some(0)),
            Err(GltfSceneError::PrimitiveRead)
        );
    }
}

#[test]
fn empty_slot_and_accessor_without_view_hold_nothing() {
    let buffers = vec![vec![0; 12]];
    let views = vec![view(12)];
    let mut without_view = accessor(1, ComponentType::F32, Dimensions::Vec3);
    without_view.view = None;
    let accessors = vec![without_view];
    assert_eq!(read_vec3_stream(&accessors, &views, &buffers, None), Ok(None));
    assert_eq!(read_vec3_stream(&accessors, &views, &buffers, Some(0)), Ok(None));
}

#[test]
fn dangling_references_make_the_document_malformed() {
    let buffers = vec![vec![0; 12]];
    let views = vec![view(12), SourceView { buffer: 1, offset: 0, length: 12, stride: None }];
    let good = accessor(1, ComponentType::F32, Dimensions::Vec3);
    assert_eq!(
        read_vec3_stream(&vec![good], &views, &buffers, Some(1)),
        Err(GltfSceneError::MalformedDocument)
    );
    let mut no_such_view = good;
    no_such_view.view = Some(2);
    assert_eq!(
        read_vec3_stream(&vec![no_such_view], &views, &buffers, Some(0)),
        Err(GltfSceneError::MalformedDocument)
    );
    let mut no_such_buffer = good;
    no_such_buffer.view = Some(1);
    assert_eq!(
        read_vec3_stream(&vec![no_such_buffer], &views, &buffers, Some(0)),
        Err(GltfSceneError::MalformedDocument)
    );
}

#[test]
fn data_outside_view_or_buffer_is_a_read_error() {
    let buffers = vec![vec![0; 24]];
    let good = accessor(2, ComponentType::F32, Dimensions::Vec3);
    assert!(resolve(&good, &vec![view(24)], &buffers).unwrap().is_some());
    assert_eq!(resolve(&good, &vec![view(23)], &buffers), Err(GltfSceneError::PrimitiveRead));
    assert_eq!(resolve(&good, &vec![view(25)], &buffers), Err(GltfSceneError::PrimitiveRead));
    let shifted = SourceView { buffer: 0, offset: 1, length: 24, stride: None };
    assert_eq!(resolve(&good, &vec![shifted], &buffers), Err(GltfSceneError::PrimitiveRead));
    let mut late = good;
    late.offset = 1;
    assert_eq!(resolve(&late, &vec![view(24)], &buffers), Err(GltfSceneError::PrimitiveRead));
    let mut many = good;
    many.count = 3;
    assert_eq!(resolve(&many, &vec![view(24)], &buffers), Err(GltfSceneError::PrimitiveRead));
    let mut huge = good;
    huge.count = usize::MAX;
    assert_eq!(resolve(&huge, &vec![view(24)], &buffers), Err(GltfSceneError::PrimitiveRead));
    huge.offset = usize::MAX;
    assert_eq!(resolve(&huge, &vec![view(24)], &buffers), Err(GltfSceneError::PrimitiveRead));
}

#[test]
fn empty_and_overlapping_accessors_are_read_errors() {
    let buffers = vec![vec![0; 24]];
    let views = vec![view(24)];
    let good = accessor(2, ComponentType::F32, Dimensions::Vec3);
    let mut empty = good;
    empty.count = 0;
    assert_eq!(resolve(&empty, &views, &buffers), Err(GltfSceneError::PrimitiveRead));
    let tight = SourceView { buffer: 0, offset: 0, length: 24, stride: Some(11) };
    assert_eq!(resolve(&good, &vec![tight], &buffers), Err(GltfSceneError::PrimitiveRead));
}

// Four vectors in view 0, the sparse indices 1 and 3 in view 1 and their
// two values in view 2.
fn sparse_vectors() -> (Vec<SourceAccessor>, Vec<SourceView>, Vec<Vec<u8>>) {
    let mut bytes = le(&[0.0, 0.5, 1.0, 1.0, 1.5, 2.0, 2.0, 2.5, 3.0, 3.0, 3.5, 4.0]);
    bytes.extend([1u8, 0, 3, 0]);
    bytes.extend(le(&[-1.0, -2.0, -3.0, 9.0, 8.0, 7.0]));
    let views = vec![
        SourceView { buffer: 0, offset: 0, length: 48, stride: None },
        SourceView { buffer: 0, offset: 48, length: 4, stride: None },
        SourceView { buffer: 0, offset: 52, length: 24, stride: None },
    ];
    let mut positions = accessor(4, ComponentType::F32, Dimensions::Vec3);
    positions.sparse = Some(SourceSparse {
        count: 2,
        indices_view: 1,
        indices_offset: 0,
        index_type: ComponentType::U16,
        values_view: 2,
        values_offset: 0,
    });
    (vec![positions], views, vec![bytes])
}

#[test]
fn sparse_values_replace_the_elements_that_their_indices_name() {
    let (accessors, views, buffers) = sparse_vectors();
    let got = read_vec3_stream(&accessors, &views, &buffers, Some(0)).unwrap().unwrap();
    assert_eq!(
        got,
        vec![v3(0.0, 0.5, 1.0), v3(-1.0, -2.0, -3.0), v3(2.0, 2.5, 3.0), v3(9.0, 8.0, 7.0)]
    );
    let bytes = &buffers[0];
    let want: Vec<Vec3> = gltf::accessor::Iter::Sparse(gltf::accessor::util::SparseIter::new(
        Some(gltf::accessor::util::ItemIter::new(&bytes[..48], 12)),
        gltf::accessor::util::SparseIndicesIter::U16(gltf::accessor::util::ItemIter::new(
            &bytes[48..52],
            2,
        )),
        gltf::accessor::util::ItemIter::new(&bytes[52..76], 12),
    ))
    .map(|p: [f32; 3]| v3(p[0], p[1], p[2]))
    .collect();
    assert_eq!(got, want);
}

#[test]
fn sparse_accessor_is_laid_out_anew() {
    let (accessors, views, buffers) = sparse_vectors();
    let data = resolve_data(&accessors[0], &views, &buffers).unwrap().unwrap();
    assert_eq!(data.layout, Layout { buffer: 0, start: 0, stride: 12, count: 4, size: 12 });
    let mut want = buffers[0][..48].to_vec();
    want[12..24].copy_from_slice(&buffers[0][52..64]);
    want[36..48].copy_from_slice(&buffers[0][64..76]);
    assert_eq!(data.patched, Some(want));
    let mut plain = accessors[0];
    plain.sparse = None;
    let data = resolve_data(&plain, &views, &buffers).unwrap().unwrap();
    assert_eq!(data.patched, None);
    assert_eq!(data.layout, Layout { buffer: 0, start: 0, stride: 12, count: 4, size: 12 });
}

#[test]
fn sparse_accessor_without_a_view_starts_from_zeros() {
    let (mut accessors, views, buffers) = sparse_vectors();
    accessors[0].view = None;
    assert_eq!(
        read_vec3_stream(&accessors, &views, &buffers, Some(0)),
        Ok(Some(vec![
            v3(0.0, 0.0, 0.0),
            v3(-1.0, -2.0, -3.0),
            v3(0.0, 0.0, 0.0),
            v3(9.0, 8.0, 7.0)
        ]))
    );
}

#[test]
fn sparse_accessor_of_one_element_is_read() {
    let mut bytes = le(&[1.0, 2.0, 3.0]);
    bytes.extend([0u8, 0, 0, 0]);
    bytes.extend(le(&[4.0, 5.0, 6.0]));
    let views = vec![
        SourceView { buffer: 0, offset: 0, length: 12, stride: None },
        SourceView { buffer: 0, offset: 12, length: 4, stride: None },
        SourceView { buffer: 0, offset: 16, length: 12, stride: None },
    ];
    let mut one = accessor(1, ComponentType::F32, Dimensions::Vec3);
    one.sparse = Some(SourceSparse {
        count: 1,
        indices_view: 1,
        indices_offset: 0,
        index_type: ComponentType::U32,
        values_view: 2,
        values_offset: 0,
    });
    assert_eq!(
        read_vec3_stream(&vec![one], &views, &vec![bytes], Some(0)),
        Ok(Some(vec![v3(4.0, 5.0, 6.0)]))
    );
}

#[test]
fn sparse_integer_colours_are_replaced_before_they_are_cast() {
    let bytes: Vec<u8> = vec![
        10, 20, 30, 40, 50, 60, 70, 80, 90, 100, 110, 120, // three colours
        0, 2, // the indices
        1, 2, 3, 4, 5, 6, 7, 8, // their values
    ];
    let views = vec![
        SourceView { buffer: 0, offset: 0, length: 12, stride: None },
        SourceView { buffer: 0, offset: 12, length: 2, stride: None },
        SourceView { buffer: 0, offset: 14, length: 8, stride: None },
    ];
    let mut colors = accessor(3, ComponentType::U8, Dimensions::Vec4);
    colors.sparse = Some(SourceSparse {
        count: 2,
        indices_view: 1,
        indices_offset: 0,
        index_type: ComponentType::U8,
        values_view: 2,
        values_offset: 0,
    });
    let got = read_color_stream(&vec![colors], &views, &vec![bytes.clone()], Some(0))
        .unwrap()
        .unwrap();
    let want: Vec<Vec4> = gltf::mesh::util::ReadColors::RgbaU8(gltf::accessor::Iter::Sparse(
        gltf::accessor::util::SparseIter::new(
            Some(gltf::accessor::util::ItemIter::new(&bytes[..12], 4)),
            gltf::accessor::util::SparseIndicesIter::U8(gltf::accessor::util::ItemIter::new(
                &bytes[12..14],
                1,
            )),
            gltf::accessor::util::ItemIter::new(&bytes[14..22], 4),
        ),
    ))
    .into_rgba_f32()
    .map(|c| v4(c[0], c[1], c[2], c[3]))
    .collect();
    assert_eq!(got.len(), 3);
    assert_eq!(got, want);
    assert_ne!(got[0], got[1]);
}

#[test]
fn malformed_sparse_parts_are_read_errors() {
    let (accessors, views, buffers) = sparse_vectors();
    let read = |change: &dyn Fn(&mut SourceAccessor, &mut Vec<SourceView>, &mut Vec<u8>)| {
        let mut accessors = accessors.clone();
        let mut views = views.clone();
        let mut buffers = buffers.clone();
        change(&mut accessors[0], &mut views, &mut buffers[0]);
        read_vec3_stream(&accessors, &views, &buffers, Some(0))
    };
    let sparse = accessors[0].sparse.unwrap();
    assert!(read(&|_, _, _| {}).is_ok());
    // An index that names no element.
    assert_eq!(read(&|_, _, bytes| bytes[50] = 4), Err(GltfSceneError::PrimitiveRead));
    // Indices that do not grow.
    assert_eq!(read(&|_, _, bytes| bytes[50] = 1), Err(GltfSceneError::PrimitiveRead));
    assert_eq!(read(&|_, _, bytes| bytes[48] = 3), Err(GltfSceneError::PrimitiveRead));
    // Indices of a type that is no unsigned integer.
    assert_eq!(
        read(&|a, _, _| a.sparse = Some(SourceSparse { index_type: ComponentType::I16, ..sparse })),
        Err(GltfSceneError::PrimitiveRead)
    );
    assert_eq!(
        read(&|a, _, _| a.sparse = Some(SourceSparse { index_type: ComponentType::F32, ..sparse })),
        Err(GltfSceneError::PrimitiveRead)
    );
    // Values or indices that leave their view.
    assert_eq!(
        read(&|a, _, _| a.sparse = Some(SourceSparse { values_offset: 1, ..sparse })),
        Err(GltfSceneError::PrimitiveRead)
    );
    assert_eq!(
        read(&|a, _, _| a.sparse = Some(SourceSparse { count: 3, ..sparse })),
        Err(GltfSceneError::PrimitiveRead)
    );
    assert_eq!(
        read(&|a, _, _| a.sparse = Some(SourceSparse { count: 0, ..sparse })),
        Err(GltfSceneError::PrimitiveRead)
    );
    // Views that the document does not hold.
    assert_eq!(
        read(&|a, _, _| a.sparse = Some(SourceSparse { indices_view: 3, ..sparse })),
        Err(GltfSceneError::MalformedDocument)
    );
    assert_eq!(
        read(&|a, _, _| a.sparse = Some(SourceSparse { values_view: 7, ..sparse })),
        Err(GltfSceneError::MalformedDocument)
    );
    // No element to replace anything in.
    assert_eq!(
        read(&|a, _, _| {
            a.view = None;
            a.count = 0;
        }),
        Err(GltfSceneError::PrimitiveRead)
    );
}

#[test]
fn single_precision_colours_get_an_opaque_alpha() {
    let buffers = vec![le(&[0.1, 0.2, 0.3, 0.4, 0.5, 0.6, 0.7, 0.8])];
    let views = vec![view(32)];
    let rgb = vec![accessor(2, ComponentType::F32, Dimensions::Vec3)];
    assert_eq!(
        read_color_stream(&rgb, &views, &buffers, Some(0)),
        Ok(Some(vec![v4(0.1, 0.2, 0.3, 1.0), v4(0.4, 0.5, 0.6, 1.0)]))
    );
    let rgba = vec![accessor(2, ComponentType::F32, Dimensions::Vec4)];
    assert_eq!(
        read_color_stream(&rgba, &views, &buffers, Some(0)),
        Ok(Some(vec![v4(0.1, 0.2, 0.3, 0.4), v4(0.5, 0.6, 0.7, 0.8)]))
    );
}

#[test]
fn integer_colours_are_cast_as_the_gltf_reader_casts_them() {
    let bytes: Vec<u8> = vec![0, 255, 0xff, 0xff, 0x00, 0x80, 0xff, 0xff, 1, 2, 3, 4, 5, 6, 7, 8];
    let buffers = vec![bytes.clone()];
    let views = vec![view(16)];
    let slice = |count: usize, component, dimensions| {
        let accessors = vec![accessor(count, component, dimensions)];
        read_color_stream(&accessors, &views, &buffers, Some(0)).unwrap().unwrap()
    };
    let expect = |iter: gltf::mesh::util::ReadColors| -> Vec<Vec4> {
        iter.into_rgba_f32().map(|c| v4(c[0], c[1], c[2], c[3])).collect()
    };
    let wide = slice(2, ComponentType::U16, Dimensions::Vec4);
    assert_eq!(wide.len(), 2);
    assert_eq!(
        wide,
        expect(gltf::mesh::util::ReadColors::RgbaU16(gltf::accessor::Iter::Standard(gltf::accessor::util::ItemIter::new(&bytes[..16], 8))))
    );
    assert_eq!(f32::from_bits(wide[0].y), 1.0);
    assert_eq!(f32::from_bits(wide[1].x), 513.0 / 65535.0);
    let wide_rgb = slice(2, ComponentType::U16, Dimensions::Vec3);
    assert_eq!(
        wide_rgb,
        expect(gltf::mesh::util::ReadColors::RgbU16(gltf::accessor::Iter::Standard(gltf::accessor::util::ItemIter::new(&bytes[..12], 6))))
    );
    assert_eq!(f32::from_bits(wide_rgb[1].w), 1.0);
    let narrow = slice(4, ComponentType::U8, Dimensions::Vec4);
    assert_eq!(narrow.len(), 4);
    assert_eq!(
        narrow,
        expect(gltf::mesh::util::ReadColors::RgbaU8(gltf::accessor::Iter::Standard(gltf::accessor::util::ItemIter::new(&bytes[..16], 4))))
    );
    let narrow_rgb = slice(5, ComponentType::U8, Dimensions::Vec3);
    assert_eq!(narrow_rgb.len(), 5);
    assert_eq!(
        narrow_rgb,
        expect(gltf::mesh::util::ReadColors::RgbU8(gltf::accessor::Iter::Standard(gltf::accessor::util::ItemIter::new(&bytes[..15], 3))))
    );
    assert_eq!(f32::from_bits(narrow_rgb[0].x), 0.0);
    assert_ne!(narrow_rgb[0].y, 255);
}

#[test]
fn colours_of_other_kinds_are_read_errors() {
    let buffers = vec![vec![0; 64]];
    let views = vec![view(64)];
    for (component, dimensions) in [
        (ComponentType::I8, Dimensions::Vec3),
        (ComponentType::U32, Dimensions::Vec4),
        (ComponentType::F32, Dimensions::Vec2),
        (ComponentType::U8, Dimensions::Scalar),
    ] {
        let wrong = vec![accessor(1, component, dimensions)];
        assert_eq!(
            read_color_stream(&wrong, &views, &buffers, Some(0)),
            Err(GltfSceneError::PrimitiveRead)
        );
    }
}

#[test]
fn texture_coordinates_are_read_or_cast() {
    let buffers = vec![le(&[0.25, 0.75, 1.0, 0.0])];
    let views = vec![view(16)];
    let single = vec![accessor(2, ComponentType::F32, Dimensions::Vec2)];
    assert_eq!(
        read_tex_coord_stream(&single, &views, &buffers, Some(0)),
        Ok(Some(vec![
            Vec2::new(0.25f32.to_bits(), 0.75f32.to_bits()),
            Vec2::new(1.0f32.to_bits(), 0.0f32.to_bits())
        ]))
    );
    let bytes: Vec<u8> = vec![0xff, 0xff, 0x00, 0x00, 0x01, 0x02, 0x03, 0x04];
    let buffers = vec![bytes.clone()];
    let views = vec![view(8)];
    let wide = vec![accessor(2, ComponentType::U16, Dimensions::Vec2)];
    let got = read_tex_coord_stream(&wide, &views, &buffers, Some(0)).unwrap().unwrap();
    let want: Vec<Vec2> = gltf::mesh::util::ReadTexCoords::U16(gltf::accessor::Iter::Standard(
        gltf::accessor::util::ItemIter::new(&bytes[..], 4),
    ))
    .into_f32()
    .map(|c| Vec2::new(c[0].to_bits(), c[1].to_bits()))
    .collect();
    assert_eq!(got, want);
    assert_eq!(got.len(), 2);
    assert_eq!(f32::from_bits(got[0].x), 1.0);
    assert_eq!(f32::from_bits(got[0].y), 0.0);
    let narrow = vec![accessor(4, ComponentType::U8, Dimensions::Vec2)];
    let got = read_tex_coord_stream(&narrow, &views, &buffers, Some(0)).unwrap().unwrap();
    let want: Vec<Vec2> = gltf::mesh::util::ReadTexCoords::U8(gltf::accessor::Iter::Standard(
        gltf::accessor::util::ItemIter::new(&bytes[..], 2),
    ))
    .into_f32()
    .map(|c| Vec2::new(c[0].to_bits(), c[1].to_bits()))
    .collect();
    assert_eq!(got, want);
    assert_eq!(got.len(), 4);
    let wrong = vec![accessor(1, ComponentType::F32, Dimensions::Vec3)];
    assert_eq!(
        read_tex_coord_stream(&wrong, &views, &buffers, Some(0)),
        Err(GltfSceneError::PrimitiveRead)
    );
}

#[test]
fn sizes_follow_component_and_dimensions() {
    assert_eq!(ComponentType::U8.size(), 1);
    assert_eq!(ComponentType::I16.size(), 2);
    assert_eq!(ComponentType::F32.size(), 4);
    assert_eq!(Dimensions::Scalar.multiplicity(), 1);
    assert_eq!(Dimensions::Mat2.multiplicity(), 4);
    assert_eq!(Dimensions::Mat3.multiplicity(), 9);
    assert_eq!(Dimensions::Mat4.multiplicity(), 16);
    assert_eq!(accessor(1, ComponentType::U16, Dimensions::Vec3).element_size(), 6);
    assert_eq!(accessor(1, ComponentType::F32, Dimensions::Mat4).element_size(), 64);
}
