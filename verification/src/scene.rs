//! A retained scene graph, modelled as an arena of nodes addressed by
//! opaque handles (indices): parents own nothing but position their
//! children; cross-references between petals and neighbour discs are plain
//! handle values.

use vstd::prelude::*;

use crate::entities::{HexSunDisc, QuadPetal, Stem, TriPetal};
use crate::mesh::{EdgeLine, MeshData};
use crate::transform::Transform;

verus! {

/// What a scene node stands for, with its payload.
pub enum NodeKind {
    /// The grid root that parents all face nodes.
    Grid,
    /// A hex face ("disc").
    Disc(HexSunDisc),
    /// A height-indicator stem under a face.
    StemNode(Stem),
    /// A gap quad petal between two faces.
    Quad(QuadPetal),
    /// A gap triangle petal at a three-hex junction.
    Tri(TriPetal),
    /// A thin edge-line box.
    Edge(EdgeLine),
    /// A gap-fill face mesh.
    Face(MeshData),
}

/// One scene node: payload, local transform, and optional parent handle.
pub struct SceneNode {
    /// The node's payload.
    pub kind: NodeKind,
    /// The node's transform, relative to its parent.
    pub transform: Transform,
    /// Handle of the parent node, if any.
    pub parent: Option<usize>,
}

/// The arena of scene nodes; a handle is an index into `nodes`.
pub struct SceneGraph {
    /// All spawned nodes, in spawn order.
    pub nodes: Vec<SceneNode>,
}

impl SceneGraph {
    /// Parents, where present, point at earlier nodes.
    pub open spec fn wf(self) -> bool {
        forall|i: int|
            0 <= i < self.nodes@.len() ==> match #[trigger] self.nodes@[i].parent {
                Some(p) => p < i,
                None => true,
            }
    }

    /// An empty scene.
    pub fn new() -> (r: SceneGraph)
        ensures
            r.wf(),
            r.nodes@.len() == 0,
    {
        SceneGraph { nodes: Vec::new() }
    }

    /// Number of nodes spawned so far.
    pub fn len(&self) -> (r: usize)
        ensures
            r == self.nodes@.len(),
    {
        self.nodes.len()
    }

    /// Spawns a node with the given payload, transform and parent,
    /// returning its handle.
    pub fn spawn_node(&mut self, kind: NodeKind, transform: Transform, parent: Option<usize>)
        -> (id: usize)
        requires
            old(self).wf(),
            old(self).nodes@.len() < usize::MAX,
            parent matches Some(p) ==> p < old(self).nodes@.len(),
        ensures
            final(self).wf(),
            id == old(self).nodes@.len(),
            final(self).nodes@.len() == old(self).nodes@.len() + 1,
            final(self).nodes@ == old(self).nodes@.push(
                SceneNode { kind, transform, parent },
            ),
    {
        let id = self.nodes.len();
        self.nodes.push(SceneNode { kind, transform, parent });
        id
    }
}

} // verus!
