use carbon::algebra::{Mat4, Vec2, Vec3, Vec4};
use carbon::scene::compiled_scene::{Material, MeshDraw, PrimitiveData};
use carbon::scene::{CompiledScene, GltfSceneError};
use carbon::vertex::Vertex;

fn v3(x: f32, y: f32, z: f32) -> Vec3 {
    Vec3::new(x.to_bits(), y.to_bits(), z.to_bits())
}

fn positions(count: usize) -> Vec<Vec3> {
    (0..count).map(|i| v3(i as f32, 0.0, 0.0)).collect()
}

fn material() -> Material {
    Material::new(Vec4::one(), None)
}

fn bare(count: usize) -> PrimitiveData {
    PrimitiveData {
        material: material(),
        positions: Some(positions(count)),
        normals: None,
        colors: None,
        uvs: None,
        indices: None,
    }
}

#[test]
fn primitive_without_indices_draws_its_vertices_in_order() {
    let mut scene = CompiledScene::new();
    assert_eq!(scene.extract_primitive(bare(4), Mat4::identity()), Ok(()));
    assert_eq!(scene.indices, vec![0, 1, 2, 3]);
    assert_eq!(scene.mesh_draws.len(), 1);
    assert_eq!(scene.mesh_draws[0].num_indices, 4);
    assert_eq!(scene.mesh_draws[0].start_idx, 0);
}

#[test]
fn second_primitive_is_renumbered_by_the_vertices_before_it() {
    let mut scene = CompiledScene::new();
    let mut first = bare(3);
    first.indices = Some(vec![0, 1, 2]);
    let mut second = bare(4);
    second.indices = Some(vec![0, 1, 2, 3]);
    assert_eq!(scene.extract_primitive(first, Mat4::identity()), Ok(()));
    assert_eq!(scene.extract_primitive(second, Mat4::identity()), Ok(()));
    assert_eq!(scene.indices, vec![0, 1, 2, 3, 4, 5, 6]);
    assert_eq!(&scene.indices[3..], &[3, 4, 5, 6]);
    assert_eq!(scene.positions.len(), 7);
    assert_eq!(
        scene.mesh_draws[1],
        MeshDraw { start_idx: 3, num_indices: 4, material_idx: 1, transform_matrix: Mat4::identity() }
    );
}

#[test]
fn missing_attributes_are_filled_for_the_vertices_of_the_primitive_only() {
    let mut scene = CompiledScene::new();
    let mut first = bare(2);
    first.normals = Some(vec![v3(0.0, 1.0, 0.0), v3(0.0, 0.0, 1.0)]);
    first.colors = Some(vec![Vec4::new(1, 2, 3, 4), Vec4::new(5, 6, 7, 8)]);
    first.uvs = Some(vec![Vec2::new(9, 10), Vec2::new(11, 12)]);
    scene.extract_primitive(first, Mat4::identity()).unwrap();
    scene.extract_primitive(bare(3), Mat4::identity()).unwrap();
    assert_eq!(scene.normals.len(), 5);
    assert_eq!(scene.colors.len(), 5);
    assert_eq!(scene.uvs.len(), 5);
    assert_eq!(&scene.normals[..2], &[v3(0.0, 1.0, 0.0), v3(0.0, 0.0, 1.0)]);
    assert_eq!(&scene.normals[2..], &[v3(0.0, 0.0, 0.0); 3]);
    let white = Vec4::new(1.0f32.to_bits(), 1.0f32.to_bits(), 1.0f32.to_bits(), 1.0f32.to_bits());
    assert_eq!(&scene.colors[2..], &[white; 3]);
    assert_eq!(&scene.colors[..2], &[Vec4::new(1, 2, 3, 4), Vec4::new(5, 6, 7, 8)]);
    assert_eq!(&scene.uvs[2..], &[Vec2::new(0.0f32.to_bits(), 0.0f32.to_bits()); 3]);
}

#[test]
fn primitive_without_positions_leaves_only_its_material() {
    let mut scene = CompiledScene::new();
    let mut skipped = bare(0);
    skipped.positions = None;
    skipped.indices = Some(vec![5, 6, 7]);
    skipped.material = Material::new(Vec4::new(1, 2, 3, 4), Some(2));
    assert_eq!(scene.extract_primitive(skipped, Mat4::identity()), Ok(()));
    assert_eq!(scene.materials, vec![Material::new(Vec4::new(1, 2, 3, 4), Some(2))]);
    assert!(scene.positions.is_empty());
    assert!(scene.indices.is_empty());
    assert!(scene.mesh_draws.is_empty());
    scene.extract_primitive(bare(1), Mat4::identity()).unwrap();
    assert_eq!(scene.mesh_draws[0].material_idx, 1);
}

#[test]
fn index_outside_the_primitive_is_a_read_error() {
    let mut scene = CompiledScene::new();
    scene.extract_primitive(bare(5), Mat4::identity()).unwrap();
    let mut bad = bare(3);
    bad.indices = Some(vec![0, 1, 3]);
    assert_eq!(scene.extract_primitive(bad, Mat4::identity()), Err(GltfSceneError::PrimitiveRead));
    assert_eq!(scene.positions.len(), 5);
    assert_eq!(scene.materials.len(), 1);
    assert_eq!(scene.mesh_draws.len(), 1);
}

#[test]
fn attribute_of_another_length_is_a_read_error() {
    let mut scene = CompiledScene::new();
    let mut short_normals = bare(3);
    short_normals.normals = Some(vec![v3(0.0, 0.0, 1.0); 2]);
    assert_eq!(
        scene.extract_primitive(short_normals, Mat4::identity()),
        Err(GltfSceneError::PrimitiveRead)
    );
    let mut long_colors = bare(3);
    long_colors.colors = Some(vec![Vec4::one(); 4]);
    assert_eq!(
        scene.extract_primitive(long_colors, Mat4::identity()),
        Err(GltfSceneError::PrimitiveRead)
    );
    let mut no_uvs = bare(3);
    no_uvs.uvs = Some(vec![]);
    assert_eq!(scene.extract_primitive(no_uvs, Mat4::identity()), Err(GltfSceneError::PrimitiveRead));
    assert_eq!(scene, CompiledScene::new());
}

#[test]
fn draw_keeps_the_transform_of_its_node() {
    let mut scene = CompiledScene::new();
    let transform = Mat4::from_data(1, 2, 3, 4, 5, 6, 7, 8, 9, 10, 11, 12, 13, 14, 15, 16);
    scene.extract_primitive(bare(1), transform).unwrap();
    assert_eq!(scene.mesh_draws[0].transform_matrix, transform);
}

#[test]
fn repeated_indices_are_kept() {
    let mut scene = CompiledScene::new();
    scene.extract_primitive(bare(2), Mat4::identity()).unwrap();
    let mut quad = bare(4);
    quad.indices = Some(vec![0, 1, 2, 2, 1, 3]);
    scene.extract_primitive(quad, Mat4::identity()).unwrap();
    assert_eq!(scene.indices, vec![0, 1, 2, 3, 4, 4, 3, 5]);
    assert_eq!(scene.mesh_draws[1].start_idx, 2);
    assert_eq!(scene.mesh_draws[1].num_indices, 6);
}

#[test]
fn vertices_are_interleaved_in_order() {
    let mut scene = CompiledScene::new();
    let mut first = bare(2);
    first.colors = Some(vec![Vec4::new(1, 2, 3, 4), Vec4::new(5, 6, 7, 8)]);
    first.uvs = Some(vec![Vec2::new(9, 10), Vec2::new(11, 12)]);
    scene.extract_primitive(first, Mat4::identity()).unwrap();
    scene.extract_primitive(bare(1), Mat4::identity()).unwrap();
    let one = 1.0f32.to_bits();
    assert_eq!(
        Vertex::buffer_data(&scene),
        vec![
            Vertex {
                pos: Vec4::new(0.0f32.to_bits(), 0, 0, one),
                color: Vec4::new(1, 2, 3, 4),
                uv: Vec2::new(9, 10),
                pad: Vec2::new(0, 0)
            },
            Vertex {
                pos: Vec4::new(one, 0, 0, one),
                color: Vec4::new(5, 6, 7, 8),
                uv: Vec2::new(11, 12),
                pad: Vec2::new(0, 0)
            },
            Vertex {
                pos: Vec4::new(0, 0, 0, one),
                color: Vec4::new(one, one, one, one),
                uv: Vec2::new(0, 0),
                pad: Vec2::new(0, 0)
            },
        ]
    );
    assert_eq!(Vertex::buffer_data(&CompiledScene::new()), vec![]);
}
