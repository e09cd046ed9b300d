//! What holds of every compiled scene.

use crate::algebra::{Mat4, Vec2, Vec3, Vec4};
use crate::camera::Camera;
use crate::scene::compiled_scene::{CompiledScene, PrimitiveModel, SceneModel};
use crate::scene::document::{SourceDocument, SourcePrimitive};
use crate::scene::error::GltfSceneError;
use crate::scene::gltf_scene::{
    after_primitive, after_primitives, after_visit, after_visits, compiled, compiles_to,
};
use crate::scene::document::SourceNode;
use crate::scene::traversal::{walk, walk_list, walk_node, Visit};
use vstd::prelude::*;

verus! {

/// A primitive without normals, colours or texture coordinates of its own
/// gets a default for every one of its vertices and for no other: in each
/// stream the entries of its vertex range, and only those, are new, and
/// they hold the zero normal, opaque white and the zero coordinate.
pub proof fn lemma_missing_attributes_are_filled(
    scene: SceneModel,
    primitive: PrimitiveModel,
    transform: Mat4,
)
    requires
        scene.streams_aligned(),
        primitive.positions is Some,
    ensures
        ({
            let after = scene.with_primitive(primitive, transform);
            let base = scene.positions.len() as int;
            let count = primitive.vertex_count() as int;
            &&& after.positions.len() == base + count
            &&& primitive.normals is None ==> after.normals.len() == base + count && forall|i: int|
                base <= i < base + count ==> #[trigger] after.normals[i] == Vec3::zero()
            &&& primitive.colors is None ==> after.colors.len() == base + count && forall|i: int|
                base <= i < base + count ==> #[trigger] after.colors[i] == Vec4::one()
            &&& primitive.uvs is None ==> after.uvs.len() == base + count && forall|i: int|
                base <= i < base + count ==> #[trigger] after.uvs[i] == Vec2::zero()
            &&& forall|i: int| 0 <= i < base ==> #[trigger] after.normals[i] == scene.normals[i]
            &&& forall|i: int| 0 <= i < base ==> #[trigger] after.colors[i] == scene.colors[i]
            &&& forall|i: int| 0 <= i < base ==> #[trigger] after.uvs[i] == scene.uvs[i]
        }),
{
}

/// Taking in a primitive that the scene accepts keeps the scene well
/// formed.
pub proof fn lemma_primitive_keeps_scene_well_formed(
    scene: SceneModel,
    primitive: PrimitiveModel,
    transform: Mat4,
)
    requires
        scene.well_formed(),
        scene.accepts(primitive),
    ensures
        scene.with_primitive(primitive, transform).well_formed(),
{
    let after = scene.with_primitive(primitive, transform);
    match primitive.positions {
        None => {
            assert(after.draws_tile()) by {
                assert forall|k: int| 0 <= k < after.mesh_draws.len() implies (
                #[trigger] after.mesh_draws[k]).start_idx == after.draw_start(k) by {
                    assert(scene.mesh_draws[k].start_idx == scene.draw_start(k));
                }
            }
        },
        Some(positions) => {
            let base = scene.positions.len();
            let local = primitive.local_indices();
            let draws = scene.mesh_draws.len() as int;
            assert(after.indices_valid()) by {
                assert forall|i: int| 0 <= i < after.indices.len() implies (
                #[trigger] after.indices[i]) < after.positions.len() by {
                    if i < scene.indices.len() {
                        assert(scene.indices[i] < scene.positions.len());
                    } else {
                        let j = i - scene.indices.len();
                        assert(local[j] < primitive.vertex_count()) by {
                            match primitive.indices {
                                Some(indices) => {
                                    assert(indices[j] < primitive.vertex_count());
                                },
                                None => {},
                            }
                        }
                    }
                }
            }
            assert(after.draws_tile()) by {
                assert(scene.draw_start(draws) == scene.indices.len());
                assert forall|k: int| 0 <= k < after.mesh_draws.len() implies (
                #[trigger] after.mesh_draws[k]).start_idx == after.draw_start(k) by {
                    if k < draws {
                        assert(scene.mesh_draws[k].start_idx == scene.draw_start(k));
                    }
                }
            }
            assert(after.materials_valid()) by {
                assert forall|k: int| 0 <= k < after.mesh_draws.len() implies (
                #[trigger] after.mesh_draws[k]).material_idx < after.materials.len() by {
                    if k < draws {
                        assert(scene.mesh_draws[k].material_idx < scene.materials.len());
                    }
                }
            }
        },
    }
}

proof fn lemma_primitives_keep_scene_well_formed(
    document: SourceDocument,
    buffers: Seq<Vec<u8>>,
    scene: SceneModel,
    primitives: Seq<SourcePrimitive>,
    from: nat,
    world: Mat4,
)
    requires
        scene.well_formed(),
    ensures
        after_primitives(document, buffers, scene, primitives, from, world) matches Ok(after)
            ==> after.well_formed(),
    decreases primitives.len() - from,
{
    if from < primitives.len() {
        match after_primitive(document, buffers, scene, primitives[from as int], world) {
            Err(e) => {},
            Ok(next) => {
                let data = crate::scene::primitive::decoded(
                    document.accessors@,
                    document.views@,
                    buffers,
                    primitives[from as int],
                ).unwrap();
                lemma_primitive_keeps_scene_well_formed(scene, data, world);
                lemma_primitives_keep_scene_well_formed(
                    document,
                    buffers,
                    next,
                    primitives,
                    from + 1,
                    world,
                );
            },
        }
    }
}

proof fn lemma_visits_keep_scene_well_formed(
    document: SourceDocument,
    buffers: Seq<Vec<u8>>,
    scene: SceneModel,
    visits: Seq<Visit>,
    from: nat,
)
    requires
        scene.well_formed(),
    ensures
        after_visits(document, buffers, scene, visits, from) matches Ok(after)
            ==> after.well_formed(),
    decreases visits.len() - from,
{
    if from < visits.len() {
        let visit = visits[from as int];
        match after_visit(document, buffers, scene, visit) {
            Err(e) => {},
            Ok(next) => {
                if visit.node < document.nodes@.len() {
                    match document.nodes@[visit.node as int].mesh {
                        None => {},
                        Some(mesh) => {
                            lemma_primitives_keep_scene_well_formed(
                                document,
                                buffers,
                                scene,
                                document.meshes@[mesh as int].primitives@,
                                0,
                                visit.world,
                            );
                        },
                    }
                }
                lemma_visits_keep_scene_well_formed(document, buffers, next, visits, from + 1);
            },
        }
    }
}

/// Every compiled scene is well formed: its vertex streams are aligned,
/// every index of its index stream names one of its positions, its draws
/// tile the index stream, and every draw names one of its materials.
pub proof fn lemma_compiled_scene_is_well_formed(document: SourceDocument, buffers: Seq<Vec<u8>>)
    ensures
        compiled(document, buffers) matches Ok(scene) ==> scene.well_formed(),
{
    match compiled(document, buffers) {
        Err(e) => {},
        Ok(scene) => {
            let roots = crate::scene::gltf_scene::roots_of(document).unwrap();
            let visits = crate::scene::traversal::walk(document.nodes@, roots).unwrap();
            let empty = SceneModel::empty();
            assert(empty.well_formed());
            lemma_visits_keep_scene_well_formed(document, buffers, empty, visits, 0);
            let before = after_visits(document, buffers, empty, visits, 0).unwrap();
            assert(scene.draws_tile()) by {
                assert forall|k: int| 0 <= k < scene.mesh_draws.len() implies (
                #[trigger] scene.mesh_draws[k]).start_idx == scene.draw_start(k) by {
                    assert(before.mesh_draws[k].start_idx == before.draw_start(k));
                }
                assert(before.draw_start(before.mesh_draws.len() as int) == before.indices.len());
            }
        },
    }
}

/// Every index of a compiled scene addresses a position of the scene.
pub proof fn lemma_indices_address_positions(document: SourceDocument, buffers: Seq<Vec<u8>>, i: int)
    requires
        compiled(document, buffers) is Ok,
        0 <= i < compiled(document, buffers).unwrap().indices.len(),
    ensures
        0 <= compiled(document, buffers).unwrap().indices[i] < compiled(
            document,
            buffers,
        ).unwrap().positions.len(),
{
    lemma_compiled_scene_is_well_formed(document, buffers);
}

/// Where the draws tile the index stream, no draw starts before the one
/// ahead of it ends, and the draws `0..k` end inside the stream.
proof fn lemma_draw_starts_grow(scene: SceneModel, j: int, k: int)
    requires
        scene.draws_tile(),
        0 <= j <= k <= scene.mesh_draws.len(),
    ensures
        0 <= scene.draw_start(j) <= scene.draw_start(k),
    decreases k - j,
{
    if j < k {
        lemma_draw_starts_grow(scene, j, k - 1);
        assert(scene.mesh_draws[k - 1].start_idx == scene.draw_start(k - 1));
    } else if j > 0 {
        assert(scene.mesh_draws[j - 1].start_idx == scene.draw_start(j - 1));
    }
}

/// The draws of a compiled scene tile its index stream in the order of the
/// walk: the first starts at index zero, each other one starts where the
/// one before it ends, the last ends with the stream, and so every draw
/// lies inside the stream and no two overlap.
pub proof fn lemma_draws_tile_index_stream(document: SourceDocument, buffers: Seq<Vec<u8>>)
    requires
        compiled(document, buffers) is Ok,
    ensures
        ({
            let scene = compiled(document, buffers).unwrap();
            let draws = scene.mesh_draws;
            &&& forall|k: int|
                0 <= k < draws.len() ==> (#[trigger] draws[k]).start_idx + draws[k].num_indices
                    <= scene.indices.len()
            &&& draws.len() > 0 ==> draws[0].start_idx == 0
            &&& forall|k: int|
                0 < k < draws.len() ==> (#[trigger] draws[k]).start_idx == draws[k - 1].start_idx
                    + draws[k - 1].num_indices
            &&& draws.len() > 0 ==> draws.last().start_idx + draws.last().num_indices
                == scene.indices.len()
            &&& draws.len() == 0 ==> scene.indices.len() == 0
            &&& forall|j: int, k: int|
                0 <= j < k < draws.len() ==> (#[trigger] draws[j]).start_idx + draws[j].num_indices
                    <= (#[trigger] draws[k]).start_idx
        }),
{
    lemma_compiled_scene_is_well_formed(document, buffers);
    let scene = compiled(document, buffers).unwrap();
    let draws = scene.mesh_draws;
    assert forall|k: int| 0 <= k < draws.len() implies (#[trigger] draws[k]).start_idx
        + draws[k].num_indices <= scene.indices.len() by {
        lemma_draw_starts_grow(scene, k + 1, draws.len() as int);
    }
    assert forall|k: int| 0 < k < draws.len() implies (#[trigger] draws[k]).start_idx == draws[k
        - 1].start_idx + draws[k - 1].num_indices by {
        assert(draws[k].start_idx == scene.draw_start(k));
    }
    if draws.len() > 0 {
        assert(draws[0].start_idx == scene.draw_start(0));
    }
    assert forall|j: int, k: int| 0 <= j < k < draws.len() implies (#[trigger] draws[j]).start_idx
        + draws[j].num_indices <= (#[trigger] draws[k]).start_idx by {
        lemma_draw_starts_grow(scene, j + 1, k);
        assert(draws[k].start_idx == scene.draw_start(k));
    }
}

/// Compiling is repeatable: two compilations of one document with the same
/// buffers end alike, with scenes that agree in every buffer or with the
/// same error.
pub proof fn lemma_compiling_twice_agrees(
    document: SourceDocument,
    buffers: Seq<Vec<u8>>,
    first: Result<CompiledScene, GltfSceneError>,
    second: Result<CompiledScene, GltfSceneError>,
)
    requires
        compiles_to(document, buffers, first),
        compiles_to(document, buffers, second),
    ensures
        match (first, second) {
            (Ok(a), Ok(b)) => a@ == b@,
            (Err(a), Err(b)) => a == b,
            _ => false,
        },
{
}

/// A compiled scene always has a camera; a document without cameras gives
/// exactly one, the fallback.
pub proof fn lemma_scene_has_a_camera(document: SourceDocument, buffers: Seq<Vec<u8>>)
    requires
        compiled(document, buffers) is Ok,
    ensures
        compiled(document, buffers).unwrap().cameras.len() >= 1,
        document.cameras@.len() == 0 ==> compiled(document, buffers).unwrap().cameras == seq![
            Camera::fallback(),
        ],
        document.cameras@.len() > 0 ==> compiled(document, buffers).unwrap().cameras.len()
            == document.cameras@.len(),
{
}

/// The nodes that a walk visits, in the order of the walk.
pub open spec fn visited(visits: Seq<Visit>) -> Seq<usize> {
    Seq::new(visits.len(), |i: int| visits[i].node)
}

/// The nodes that can be reached from `node` on paths of at most `depth`
/// nodes, `node` among them.
pub open spec fn reach_node(nodes: Seq<SourceNode>, node: usize, depth: nat) -> Set<usize>
    decreases depth, 0nat, 0nat,
{
    if depth == 0 || node >= nodes.len() {
        set![node]
    } else {
        reach_list(nodes, nodes[node as int].children@, 0, (depth - 1) as nat).insert(node)
    }
}

/// The nodes that can be reached from the nodes `list[from..]`.
pub open spec fn reach_list(nodes: Seq<SourceNode>, list: Seq<usize>, from: nat, depth: nat) -> Set<
    usize,
>
    decreases depth, 1nat, list.len() - from,
{
    if from >= list.len() {
        Set::empty()
    } else {
        reach_node(nodes, list[from as int], depth).union(
            reach_list(nodes, list, from + 1, depth),
        )
    }
}

/// Whether the nodes below `node` form a tree of at most `depth` levels:
/// the document holds the node, no path from it comes back to it, and the
/// subtrees of its children are trees that share no node.
pub open spec fn is_tree(nodes: Seq<SourceNode>, node: usize, depth: nat) -> bool
    decreases depth, 0nat, 0nat,
{
    &&& depth > 0
    &&& node < nodes.len()
    &&& is_forest(nodes, nodes[node as int].children@, 0, (depth - 1) as nat)
    &&& !reach_list(nodes, nodes[node as int].children@, 0, (depth - 1) as nat).contains(node)
}

/// Whether the nodes `list[from..]` are the roots of trees that share no
/// node.
pub open spec fn is_forest(nodes: Seq<SourceNode>, list: Seq<usize>, from: nat, depth: nat) -> bool
    decreases depth, 1nat, list.len() - from,
{
    from >= list.len() || {
        &&& is_tree(nodes, list[from as int], depth)
        &&& is_forest(nodes, list, from + 1, depth)
        &&& reach_node(nodes, list[from as int], depth).disjoint(
            reach_list(nodes, list, from + 1, depth),
        )
    }
}

/// The walk of a tree lists the tree in pre-order: the root comes first,
/// the subtrees of its children follow in the order of the child list, and
/// every node of the tree is visited once and no other node is.
pub proof fn lemma_walk_lists_tree_in_preorder(
    nodes: Seq<SourceNode>,
    node: usize,
    parent: crate::algebra::Mat4,
    depth: nat,
)
    requires
        is_tree(nodes, node, depth),
    ensures
        walk_node(nodes, node, parent, depth) matches Some(visits) && {
            let world = parent.product(nodes[node as int].transform);
            &&& visits[0] == (Visit { node, world })
            &&& walk_list(nodes, nodes[node as int].children@, 0, world, (depth - 1) as nat)
                == Some(visits.subrange(1, visits.len() as int))
            &&& visited(visits).no_duplicates()
            &&& visited(visits).to_set() == reach_node(nodes, node, depth)
            &&& visits.len() == reach_node(nodes, node, depth).len()
        },
    decreases depth, 0nat, 0nat,
{
    let world = parent.product(nodes[node as int].transform);
    let children = nodes[node as int].children@;
    lemma_walk_lists_forest_in_order(nodes, children, 0, world, (depth - 1) as nat);
    let below = walk_list(nodes, children, 0, world, (depth - 1) as nat).unwrap();
    let visits = walk_node(nodes, node, parent, depth).unwrap();
    let under = reach_list(nodes, children, 0, (depth - 1) as nat);
    assert(visits =~= seq![Visit { node, world }] + below);
    assert(visits.subrange(1, visits.len() as int) =~= below);
    assert forall|i: int| 1 <= i < visits.len() implies under.contains(
        #[trigger] visited(visits)[i],
    ) by {
        assert(visited(below)[i - 1] == visited(visits)[i]);
        assert(visited(below).contains(visited(below)[i - 1]));
    }
    assert(visited(visits).no_duplicates()) by {
        assert forall|i: int, j: int|
            0 <= i < visits.len() && 0 <= j < visits.len() && i != j implies visited(visits)[i]
            != visited(visits)[j] by {
            if i >= 1 && j >= 1 {
                assert(visited(below)[i - 1] != visited(below)[j - 1]);
            } else if i >= 1 {
                assert(under.contains(visited(visits)[i]));
            } else {
                assert(under.contains(visited(visits)[j]));
            }
        }
    }
    assert(visited(visits).to_set() =~= reach_node(nodes, node, depth)) by {
        assert forall|n: usize| visited(visits).to_set().contains(n) <==> under.insert(
            node,
        ).contains(n) by {
            if visited(visits).contains(n) {
                let i = choose|i: int| 0 <= i < visits.len() && visited(visits)[i] == n;
                if i >= 1 {
                    assert(under.contains(visited(visits)[i]));
                }
            }
            if n == node {
                assert(visited(visits)[0] == n);
            } else if under.contains(n) {
                assert(visited(below).contains(n));
                let i = choose|i: int| 0 <= i < below.len() && visited(below)[i] == n;
                assert(visited(visits)[i + 1] == n);
            }
        }
    }
    visited(visits).unique_seq_to_set();
}

/// The walk of a forest lists its trees one after the other, in the order
/// of their roots, and visits every node of the forest once and no other
/// node.
pub proof fn lemma_walk_lists_forest_in_order(
    nodes: Seq<SourceNode>,
    list: Seq<usize>,
    from: nat,
    parent: crate::algebra::Mat4,
    depth: nat,
)
    requires
        is_forest(nodes, list, from, depth),
    ensures
        walk_list(nodes, list, from, parent, depth) matches Some(visits) && {
            &&& visited(visits).no_duplicates()
            &&& visited(visits).to_set() == reach_list(nodes, list, from, depth)
            &&& visits.len() == reach_list(nodes, list, from, depth).len()
        },
    decreases depth, 1nat, list.len() - from,
{
    if from >= list.len() {
        let visits = walk_list(nodes, list, from, parent, depth).unwrap();
        assert(visited(visits) =~= Seq::<usize>::empty());
        assert(visited(visits).to_set() =~= Set::<usize>::empty());
    } else {
        lemma_walk_lists_tree_in_preorder(nodes, list[from as int], parent, depth);
        lemma_walk_lists_forest_in_order(nodes, list, from + 1, parent, depth);
        let first = walk_node(nodes, list[from as int], parent, depth).unwrap();
        let rest = walk_list(nodes, list, from + 1, parent, depth).unwrap();
        let visits = walk_list(nodes, list, from, parent, depth).unwrap();
        let here = reach_node(nodes, list[from as int], depth);
        let there = reach_list(nodes, list, from + 1, depth);
        assert(visits =~= first + rest);
        assert forall|i: int| 0 <= i < first.len() implies here.contains(
            #[trigger] visited(visits)[i],
        ) by {
            assert(visited(first)[i] == visited(visits)[i]);
            assert(visited(first).contains(visited(first)[i]));
        }
        assert forall|i: int| first.len() <= i < visits.len() implies there.contains(
            #[trigger] visited(visits)[i],
        ) by {
            assert(visited(rest)[i - first.len()] == visited(visits)[i]);
            assert(visited(rest).contains(visited(rest)[i - first.len()]));
        }
        assert(visited(visits).no_duplicates()) by {
            assert forall|i: int, j: int|
                0 <= i < visits.len() && 0 <= j < visits.len() && i != j implies visited(
                visits,
            )[i] != visited(visits)[j] by {
                if i < first.len() && j < first.len() {
                    assert(visited(first)[i] != visited(first)[j]);
                } else if i >= first.len() && j >= first.len() {
                    assert(visited(rest)[i - first.len()] != visited(rest)[j - first.len()]);
                } else if i < first.len() {
                    assert(here.contains(visited(visits)[i]));
                    assert(there.contains(visited(visits)[j]));
                } else {
                    assert(here.contains(visited(visits)[j]));
                    assert(there.contains(visited(visits)[i]));
                }
            }
        }
        assert(visited(visits).to_set() =~= here.union(there)) by {
            assert forall|n: usize| visited(visits).to_set().contains(n) <==> here.union(
                there,
            ).contains(n) by {
                if visited(visits).contains(n) {
                    let i = choose|i: int| 0 <= i < visits.len() && visited(visits)[i] == n;
                    if i < first.len() {
                        assert(here.contains(visited(visits)[i]));
                    } else {
                        assert(there.contains(visited(visits)[i]));
                    }
                }
                if here.contains(n) {
                    assert(visited(first).contains(n));
                    let i = choose|i: int| 0 <= i < first.len() && visited(first)[i] == n;
                    assert(visited(visits)[i] == n);
                }
                if there.contains(n) {
                    assert(visited(rest).contains(n));
                    let i = choose|i: int| 0 <= i < rest.len() && visited(rest)[i] == n;
                    assert(visited(visits)[i + first.len()] == n);
                }
            }
        }
        visited(visits).unique_seq_to_set();
    }
}

/// The nodes of a tree are finitely many and the document holds each.
proof fn lemma_tree_reach(nodes: Seq<SourceNode>, node: usize, depth: nat)
    requires
        is_tree(nodes, node, depth),
    ensures
        reach_node(nodes, node, depth).finite(),
        forall|n: usize| reach_node(nodes, node, depth).contains(n) ==> n < nodes.len(),
    decreases depth, 0nat, 0nat,
{
    lemma_forest_reach(nodes, nodes[node as int].children@, 0, (depth - 1) as nat);
}

proof fn lemma_forest_reach(nodes: Seq<SourceNode>, list: Seq<usize>, from: nat, depth: nat)
    requires
        is_forest(nodes, list, from, depth),
    ensures
        reach_list(nodes, list, from, depth).finite(),
        forall|n: usize| reach_list(nodes, list, from, depth).contains(n) ==> n < nodes.len(),
    decreases depth, 1nat, list.len() - from,
{
    if from < list.len() {
        lemma_tree_reach(nodes, list[from as int], depth);
        lemma_forest_reach(nodes, list, from + 1, depth);
    }
}

/// A tree of at most `depth` levels is a tree of at most `deeper` levels,
/// with the same nodes.
proof fn lemma_tree_deeper(nodes: Seq<SourceNode>, node: usize, depth: nat, deeper: nat)
    requires
        is_tree(nodes, node, depth),
        depth <= deeper,
    ensures
        is_tree(nodes, node, deeper),
        reach_node(nodes, node, deeper) == reach_node(nodes, node, depth),
    decreases depth, 0nat, 0nat,
{
    lemma_forest_deeper(
        nodes,
        nodes[node as int].children@,
        0,
        (depth - 1) as nat,
        (deeper - 1) as nat,
    );
}

proof fn lemma_forest_deeper(
    nodes: Seq<SourceNode>,
    list: Seq<usize>,
    from: nat,
    depth: nat,
    deeper: nat,
)
    requires
        is_forest(nodes, list, from, depth),
        depth <= deeper,
    ensures
        is_forest(nodes, list, from, deeper),
        reach_list(nodes, list, from, deeper) == reach_list(nodes, list, from, depth),
    decreases depth, 1nat, list.len() - from,
{
    if from < list.len() {
        lemma_tree_deeper(nodes, list[from as int], depth, deeper);
        lemma_forest_deeper(nodes, list, from + 1, depth, deeper);
    }
}

/// The indices below `bound`.
spec fn below(bound: nat) -> Set<usize> {
    Set::new(|n: usize| n < bound)
}

proof fn lemma_below(bound: nat)
    ensures
        below(bound).finite(),
        below(bound).len() <= bound,
    decreases bound,
{
    if bound == 0 {
        assert(below(bound) =~= Set::<usize>::empty());
    } else {
        lemma_below((bound - 1) as nat);
        if bound - 1 <= usize::MAX {
            assert(below(bound) =~= below((bound - 1) as nat).insert((bound - 1) as usize));
        } else {
            assert(below(bound) =~= below((bound - 1) as nat));
        }
    }
}

/// A tree has no more levels than it has nodes.
proof fn lemma_tree_at_its_size(nodes: Seq<SourceNode>, node: usize, depth: nat)
    requires
        is_tree(nodes, node, depth),
    ensures
        is_tree(nodes, node, reach_node(nodes, node, depth).len()),
        reach_node(nodes, node, reach_node(nodes, node, depth).len()) == reach_node(
            nodes,
            node,
            depth,
        ),
    decreases depth, 0nat, 0nat,
{
    let children = nodes[node as int].children@;
    let under = reach_list(nodes, children, 0, (depth - 1) as nat);
    lemma_forest_reach(nodes, children, 0, (depth - 1) as nat);
    assert(reach_node(nodes, node, depth).len() == under.len() + 1);
    lemma_forest_within_bound(nodes, children, 0, (depth - 1) as nat, under.len());
}

/// A forest of no more than `bound` nodes has no more than `bound` levels.
proof fn lemma_forest_within_bound(
    nodes: Seq<SourceNode>,
    list: Seq<usize>,
    from: nat,
    depth: nat,
    bound: nat,
)
    requires
        is_forest(nodes, list, from, depth),
        reach_list(nodes, list, from, depth).len() <= bound,
    ensures
        is_forest(nodes, list, from, bound),
        reach_list(nodes, list, from, bound) == reach_list(nodes, list, from, depth),
    decreases depth, 1nat, list.len() - from,
{
    if from < list.len() {
        let first = list[from as int];
        let here = reach_node(nodes, first, depth);
        let there = reach_list(nodes, list, from + 1, depth);
        lemma_tree_reach(nodes, first, depth);
        lemma_forest_reach(nodes, list, from + 1, depth);
        vstd::set_lib::lemma_len_subset(here, here.union(there));
        vstd::set_lib::lemma_len_subset(there, here.union(there));
        lemma_tree_at_its_size(nodes, first, depth);
        lemma_tree_deeper(nodes, first, here.len(), bound);
        lemma_forest_within_bound(nodes, list, from + 1, depth, bound);
    }
}

/// The walk of a scene whose roots head a forest, however deep, ends, and
/// it visits every node of the forest once and no other node, roots in
/// their order and every parent before its children: as many visits as the
/// forest has nodes.
pub proof fn lemma_walk_visits_forest_once(nodes: Seq<SourceNode>, roots: Seq<usize>, depth: nat)
    requires
        is_forest(nodes, roots, 0, depth),
    ensures
        walk(nodes, roots) matches Some(visits) && {
            &&& visited(visits).no_duplicates()
            &&& visited(visits).to_set() == reach_list(nodes, roots, 0, depth)
            &&& visits.len() == reach_list(nodes, roots, 0, depth).len()
        },
{
    let all = reach_list(nodes, roots, 0, depth);
    lemma_forest_reach(nodes, roots, 0, depth);
    lemma_below(nodes.len());
    assert(all.subset_of(below(nodes.len())));
    vstd::set_lib::lemma_len_subset(all, below(nodes.len()));
    lemma_forest_within_bound(nodes, roots, 0, depth, nodes.len());
    lemma_walk_lists_forest_in_order(nodes, roots, 0, crate::algebra::Mat4::identity(), nodes.len());
}

} // verus!
