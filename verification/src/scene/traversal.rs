//! The node traverser: a depth-first walk of the hierarchy that composes
//! local transforms into world transforms.

use crate::algebra::Mat4;
use crate::scene::document::SourceNode;
use crate::scene::error::GltfSceneError;
use vstd::prelude::*;

verus! {

/// One step of the walk: a node and its world transform.
#[derive(Clone, Copy, Debug, PartialEq, Eq)]
pub struct Visit {
    pub node: usize,
    pub world: Mat4,
}

/// The walk of the subtree of `node`: the node itself, under the product of
/// `parent` and its own transform, and then the walks of its children, in
/// the order of the child list, each under the node's world transform.
///
/// `depth` bounds the number of nodes on a path. The walk is `None` when a
/// path is longer, or leads to a node that the document does not hold.
pub open spec fn walk_node(nodes: Seq<SourceNode>, node: usize, parent: Mat4, depth: nat) -> Option<
    Seq<Visit>,
>
    decreases depth, 0nat, 0nat,
{
    if depth == 0 || node >= nodes.len() {
        None
    } else {
        let world = parent.product(nodes[node as int].transform);
        match walk_list(nodes, nodes[node as int].children@, 0, world, (depth - 1) as nat) {
            None => None,
            Some(below) => Some(seq![Visit { node, world }] + below),
        }
    }
}

/// The walks of the nodes `list[from..]`, one after the other, all under
/// the same parent transform.
pub open spec fn walk_list(
    nodes: Seq<SourceNode>,
    list: Seq<usize>,
    from: nat,
    parent: Mat4,
    depth: nat,
) -> Option<Seq<Visit>>
    decreases depth, 1nat, list.len() - from,
{
    if from >= list.len() {
        Some(Seq::empty())
    } else {
        match walk_node(nodes, list[from as int], parent, depth) {
            None => None,
            Some(first) => match walk_list(nodes, list, from + 1, parent, depth) {
                None => None,
                Some(rest) => Some(first + rest),
            },
        }
    }
}

/// The walk of a scene with the given roots: every root starts from the
/// identity, and a path may hold each node of the document once.
pub open spec fn walk(nodes: Seq<SourceNode>, roots: Seq<usize>) -> Option<Seq<Visit>> {
    walk_list(nodes, roots, 0, Mat4::identity(), nodes.len())
}

fn visit_node(
    nodes: &Vec<SourceNode>,
    node: usize,
    parent: &Mat4,
    depth: usize,
    out: &mut Vec<Visit>,
) -> (ok: bool)
    ensures
        match walk_node(nodes@, node, *parent, depth as nat) {
            Some(visits) => ok && final(out)@ == old(out)@ + visits,
            None => !ok,
        },
    decreases depth, 0nat, 0nat,
{
    if depth == 0 || node >= nodes.len() {
        return false;
    }
    let world: Mat4 = parent.multiply(&nodes[node].transform);
    out.push(Visit { node, world });
    let ghost pushed = out@;
    let ok: bool = visit_list(nodes, &nodes[node].children, &world, depth - 1, out);
    proof {
        match walk_list(nodes@, nodes@[node as int].children@, 0, world, (depth - 1) as nat) {
            Some(below) => {
                assert(out@ =~= old(out)@ + (seq![Visit { node, world }] + below));
            },
            None => {},
        }
    }
    ok
}

fn visit_list(
    nodes: &Vec<SourceNode>,
    list: &Vec<usize>,
    parent: &Mat4,
    depth: usize,
    out: &mut Vec<Visit>,
) -> (ok: bool)
    ensures
        match walk_list(nodes@, list@, 0, *parent, depth as nat) {
            Some(visits) => ok && final(out)@ == old(out)@ + visits,
            None => !ok,
        },
    decreases depth, 1nat, 0nat,
{
    let ghost whole = walk_list(nodes@, list@, 0, *parent, depth as nat);
    let ghost mut done: Seq<Visit> = Seq::empty();
    let mut i: usize = 0;
    while i < list.len()
        invariant
            i <= list@.len(),
            whole == walk_list(nodes@, list@, 0, *parent, depth as nat),
            out@ == old(out)@ + done,
            match walk_list(nodes@, list@, i as nat, *parent, depth as nat) {
                Some(rest) => whole == Some(done + rest),
                None => whole is None,
            },
        decreases list@.len() - i,
    {
        let ghost before = out@;
        let ghost first = walk_node(nodes@, list@[i as int], *parent, depth as nat);
        let ghost rest = walk_list(nodes@, list@, (i + 1) as nat, *parent, depth as nat);
        if !visit_node(nodes, list[i], parent, depth, out) {
            return false;
        }
        proof {
            match rest {
                Some(r) => {
                    assert(done + (first.unwrap() + r) =~= (done + first.unwrap()) + r);
                },
                None => {},
            }
            assert(out@ =~= old(out)@ + (done + first.unwrap()));
            done = done + first.unwrap();
        }
        i = i + 1;
    }
    proof {
        assert(done + Seq::<Visit>::empty() =~= done);
    }
    true
}

/// Walks the hierarchy below `roots`, depth first and parents before
/// children.
///
/// The nodes must form a tree: a child that the document does not hold, or
/// a path that comes back to a node, makes the document malformed.
pub fn traverse(nodes: &Vec<SourceNode>, roots: &Vec<usize>) -> (visits: Result<
    Vec<Visit>,
    GltfSceneError,
>)
    ensures
        match visits {
            Ok(v) => walk(nodes@, roots@) == Some(v@),
            Err(e) => walk(nodes@, roots@) is None && e == GltfSceneError::MalformedDocument,
        },
{
    let mut out: Vec<Visit> = Vec::new();
    let identity: Mat4 = Mat4::identity();
    if visit_list(nodes, roots, &identity, nodes.len(), &mut out) {
        assert(out@ =~= walk(nodes@, roots@).unwrap());
        Ok(out)
    } else {
        Err(GltfSceneError::MalformedDocument)
    }
}

} // verus!
