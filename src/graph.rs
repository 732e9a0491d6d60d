//! The mutable scene graph: an arena of hierarchy nodes addressed by stable
//! indices, each with at most one parent, and markers linked to a camera and
//! a bundle.
use crate::node::{
    AttrMarkerIds, AttrTransformIds, CameraSettings, NodeId, RotateOrder,
};
use vstd::prelude::*;

verus! {

/// A node of the transform hierarchy: a transform, a camera or a bundle.
/// `parent` is the hierarchy index of its parent, `None` under the root.
#[derive(Clone, Copy, Debug, PartialEq, Eq)]
pub struct HierarchyNode {
    pub id: NodeId,
    pub parent: Option<usize>,
    pub attrs: AttrTransformIds,
    pub rotate_order: RotateOrder,
}

/// A 2D marker with its optional links, as indices of cameras and bundles.
#[derive(Clone, Copy, Debug, PartialEq, Eq)]
pub struct MarkerNode {
    pub attrs: AttrMarkerIds,
    pub camera: Option<usize>,
    pub bundle: Option<usize>,
}

/// The scene graph. Nodes are appended and reparented, never removed.
pub struct SceneGraph {
    nodes: Vec<HierarchyNode>,
    transforms: Vec<usize>,
    cameras: Vec<usize>,
    camera_settings: Vec<CameraSettings>,
    bundles: Vec<usize>,
    markers: Vec<MarkerNode>,
}

/// The mathematical content of a scene graph. `transforms[i]`,
/// `cameras[i]` and `bundles[i]` give the hierarchy index of the node with
/// that kind and per-kind index `i`.
pub struct SceneGraphModel {
    pub nodes: Seq<HierarchyNode>,
    pub transforms: Seq<usize>,
    pub cameras: Seq<usize>,
    pub camera_settings: Seq<CameraSettings>,
    pub bundles: Seq<usize>,
    pub markers: Seq<MarkerNode>,
}

impl View for SceneGraph {
    type V = SceneGraphModel;

    closed spec fn view(&self) -> SceneGraphModel {
        SceneGraphModel {
            nodes: self.nodes@,
            transforms: self.transforms@,
            cameras: self.cameras@,
            camera_settings: self.camera_settings@,
            bundles: self.bundles@,
            markers: self.markers@,
        }
    }
}

impl SceneGraphModel {
    /// The hierarchy index of a transform, camera or bundle that exists.
    pub open spec fn slot_of(self, id: NodeId) -> Option<nat> {
        match id {
            NodeId::Transform(i) => if i < self.transforms.len() {
                Some(self.transforms[i as int] as nat)
            } else {
                None
            },
            NodeId::Camera(i) => if i < self.cameras.len() {
                Some(self.cameras[i as int] as nat)
            } else {
                None
            },
            NodeId::Bundle(i) => if i < self.bundles.len() {
                Some(self.bundles[i as int] as nat)
            } else {
                None
            },
            _ => None,
        }
    }

    /// The parent of hierarchy node `h`; `None` stands for the root.
    pub open spec fn parent(self, h: nat) -> Option<nat> {
        match self.nodes[h as int].parent {
            Some(p) => Some(p as nat),
            None => None,
        }
    }

    pub open spec fn has_marker(self, id: NodeId) -> bool {
        id matches NodeId::Marker(i) && i < self.markers.len()
    }

    /// `id` is the parent of hierarchy node `n` (the root for a top node).
    pub open spec fn is_parent_of(self, id: NodeId, n: HierarchyNode) -> bool {
        match n.parent {
            None => id == NodeId::Root,
            Some(p) => self.slot_of(id) == Some(p as nat),
        }
    }

    pub open spec fn has_camera(self, id: NodeId) -> bool {
        id matches NodeId::Camera(i) && i < self.cameras.len()
    }

    pub open spec fn has_bundle(self, id: NodeId) -> bool {
        id matches NodeId::Bundle(i) && i < self.bundles.len()
    }

    /// The settings of a camera of this graph.
    pub open spec fn camera_settings_of(self, id: NodeId) -> CameraSettings
        recommends
            self.has_camera(id),
    {
        self.camera_settings[id->Camera_0 as int]
    }

    pub open spec fn marker_of(self, id: NodeId) -> MarkerNode
        recommends
            self.has_marker(id),
    {
        self.markers[id->Marker_0 as int]
    }

    pub open spec fn wf(self) -> bool {
        &&& forall|h: int|
            0 <= h < self.nodes.len() ==> ((#[trigger] self.nodes[h]).parent matches Some(p) ==> p
                < self.nodes.len())
        &&& forall|h: int|
            0 <= h < self.nodes.len() ==> self.slot_of((#[trigger] self.nodes[h]).id) == Some(
                h as nat,
            )
        &&& forall|i: int|
            0 <= i < self.transforms.len() ==> #[trigger] self.transforms[i] < self.nodes.len()
                && self.nodes[self.transforms[i] as int].id == NodeId::Transform(i as usize)
        &&& forall|i: int|
            0 <= i < self.cameras.len() ==> #[trigger] self.cameras[i] < self.nodes.len()
                && self.nodes[self.cameras[i] as int].id == NodeId::Camera(i as usize)
        &&& forall|i: int|
            0 <= i < self.bundles.len() ==> #[trigger] self.bundles[i] < self.nodes.len()
                && self.nodes[self.bundles[i] as int].id == NodeId::Bundle(i as usize)
        &&& self.camera_settings.len() == self.cameras.len()
        &&& forall|m: int|
            0 <= m < self.markers.len() ==> {
                &&& ((#[trigger] self.markers[m]).camera matches Some(c) ==> c < self.cameras.len())
                &&& (self.markers[m].bundle matches Some(b) ==> b < self.bundles.len())
            }
    }

    /// The node `k` steps up from `h`: `h` itself for `k == 0`, `None` once
    /// the walk has passed the root.
    pub open spec fn ancestor_at(self, h: nat, k: nat) -> Option<nat>
        decreases k,
    {
        if k == 0 {
            Some(h)
        } else if h < self.nodes.len() {
            match self.parent(h) {
                Some(p) => self.ancestor_at(p, (k - 1) as nat),
                None => None,
            }
        } else {
            None
        }
    }

    /// `a` is `h` or one of its ancestors.
    pub open spec fn is_upstream_of(self, a: nat, h: nat) -> bool {
        exists|k: nat| self.ancestor_at(h, k) == Some(a)
    }

    /// `s` lists every hierarchy node exactly once, parents before children.
    pub open spec fn is_topo_order(self, s: Seq<nat>) -> bool {
        &&& s.len() == self.nodes.len()
        &&& s.no_duplicates()
        &&& forall|i: int| 0 <= i < s.len() ==> #[trigger] s[i] < self.nodes.len()
        &&& forall|h: nat| h < self.nodes.len() ==> #[trigger] s.contains(h)
        &&& forall|i: int, j: int|
            #![trigger s[i], s[j]]
            0 <= i < s.len() && 0 <= j < s.len() && self.parent(s[j]) == Some(s[i]) ==> i < j
    }

    /// The hierarchy is acyclic: some order puts every parent before its
    /// children.
    pub open spec fn has_topo_order(self) -> bool {
        exists|s: Seq<nat>| self.is_topo_order(s)
    }

    /// `c` is a chain of hierarchy nodes, each the parent of the next, whose
    /// last node is the parent of its first.
    pub open spec fn is_cycle(self, c: Seq<nat>) -> bool {
        &&& c.len() > 0
        &&& forall|i: int| 0 <= i < c.len() ==> #[trigger] c[i] < self.nodes.len()
        &&& forall|i: int| 0 < i < c.len() ==> self.parent(#[trigger] c[i]) == Some(c[i - 1])
        &&& self.parent(c[0]) == Some(c[c.len() - 1])
    }
}

impl SceneGraph {
    /// A graph that holds only the root.
    pub fn new() -> (r: SceneGraph)
        ensures
            r@.wf(),
            r@.nodes.len() == 0,
            r@.transforms.len() == 0,
            r@.cameras.len() == 0,
            r@.bundles.len() == 0,
            r@.markers.len() == 0,
    {
        SceneGraph {
            nodes: Vec::new(),
            transforms: Vec::new(),
            cameras: Vec::new(),
            camera_settings: Vec::new(),
            bundles: Vec::new(),
            markers: Vec::new(),
        }
    }

    /// Adds a transform under the root.
    pub fn add_transform(&mut self, attrs: AttrTransformIds, rotate_order: RotateOrder) -> (r:
        NodeId)
        requires
            old(self)@.wf(),
        ensures
            final(self)@.wf(),
            r == NodeId::Transform(old(self)@.transforms.len() as usize),
            final(self)@.nodes == old(self)@.nodes.push(
                HierarchyNode { id: r, parent: None, attrs, rotate_order },
            ),
            final(self)@.transforms == old(self)@.transforms.push(old(self)@.nodes.len() as usize),
            final(self)@.cameras == old(self)@.cameras,
            final(self)@.camera_settings == old(self)@.camera_settings,
            final(self)@.bundles == old(self)@.bundles,
            final(self)@.markers == old(self)@.markers,
    {
        let id = NodeId::Transform(self.transforms.len());
        let slot = self.nodes.len();
        self.nodes.push(HierarchyNode { id, parent: None, attrs, rotate_order });
        self.transforms.push(slot);
        proof {
            assert(self@.slot_of(id) == Some(slot as nat));
            assert forall|h: int| 0 <= h < self@.nodes.len() implies self@.slot_of(
                (#[trigger] self@.nodes[h]).id,
            ) == Some(h as nat) by {
                if h < slot {
                    assert(old(self)@.slot_of(old(self)@.nodes[h].id) == Some(h as nat));
                }
            }
        }
        id
    }

    /// Adds a bundle under the root.
    pub fn add_bundle(&mut self, attrs: AttrTransformIds, rotate_order: RotateOrder) -> (r: NodeId)
        requires
            old(self)@.wf(),
        ensures
            final(self)@.wf(),
            r == NodeId::Bundle(old(self)@.bundles.len() as usize),
            final(self)@.nodes == old(self)@.nodes.push(
                HierarchyNode { id: r, parent: None, attrs, rotate_order },
            ),
            final(self)@.bundles == old(self)@.bundles.push(old(self)@.nodes.len() as usize),
            final(self)@.transforms == old(self)@.transforms,
            final(self)@.cameras == old(self)@.cameras,
            final(self)@.camera_settings == old(self)@.camera_settings,
            final(self)@.markers == old(self)@.markers,
    {
        let id = NodeId::Bundle(self.bundles.len());
        let slot = self.nodes.len();
        self.nodes.push(HierarchyNode { id, parent: None, attrs, rotate_order });
        self.bundles.push(slot);
        proof {
            assert(self@.slot_of(id) == Some(slot as nat));
            assert forall|h: int| 0 <= h < self@.nodes.len() implies self@.slot_of(
                (#[trigger] self@.nodes[h]).id,
            ) == Some(h as nat) by {
                if h < slot {
                    assert(old(self)@.slot_of(old(self)@.nodes[h].id) == Some(h as nat));
                }
            }
        }
        id
    }

    /// Adds a camera under the root.
    pub fn add_camera(
        &mut self,
        attrs: AttrTransformIds,
        rotate_order: RotateOrder,
        settings: CameraSettings,
    ) -> (r: NodeId)
        requires
            old(self)@.wf(),
        ensures
            final(self)@.wf(),
            r == NodeId::Camera(old(self)@.cameras.len() as usize),
            final(self)@.nodes == old(self)@.nodes.push(
                HierarchyNode { id: r, parent: None, attrs, rotate_order },
            ),
            final(self)@.cameras == old(self)@.cameras.push(old(self)@.nodes.len() as usize),
            final(self)@.camera_settings == old(self)@.camera_settings.push(settings),
            final(self)@.transforms == old(self)@.transforms,
            final(self)@.bundles == old(self)@.bundles,
            final(self)@.markers == old(self)@.markers,
    {
        let id = NodeId::Camera(self.cameras.len());
        let slot = self.nodes.len();
        self.nodes.push(HierarchyNode { id, parent: None, attrs, rotate_order });
        self.cameras.push(slot);
        self.camera_settings.push(settings);
        proof {
            assert(self@.slot_of(id) == Some(slot as nat));
            assert forall|h: int| 0 <= h < self@.nodes.len() implies self@.slot_of(
                (#[trigger] self@.nodes[h]).id,
            ) == Some(h as nat) by {
                if h < slot {
                    assert(old(self)@.slot_of(old(self)@.nodes[h].id) == Some(h as nat));
                }
            }
        }
        id
    }

    /// Adds a marker with no camera and no bundle linked.
    pub fn add_marker(&mut self, attrs: AttrMarkerIds) -> (r: NodeId)
        requires
            old(self)@.wf(),
        ensures
            final(self)@.wf(),
            r == NodeId::Marker(old(self)@.markers.len() as usize),
            final(self)@.markers == old(self)@.markers.push(
                MarkerNode { attrs, camera: None, bundle: None },
            ),
            final(self)@.nodes == old(self)@.nodes,
            final(self)@.transforms == old(self)@.transforms,
            final(self)@.cameras == old(self)@.cameras,
            final(self)@.camera_settings == old(self)@.camera_settings,
            final(self)@.bundles == old(self)@.bundles,
    {
        let id = NodeId::Marker(self.markers.len());
        self.markers.push(MarkerNode { attrs, camera: None, bundle: None });
        id
    }

    /// The hierarchy index of a transform, camera or bundle of this graph.
    pub fn slot(&self, id: NodeId) -> (r: Option<usize>)
        requires
            self@.wf(),
        ensures
            r matches Some(h) ==> h < self@.nodes.len(),
            match r {
                Some(h) => self@.slot_of(id) == Some(h as nat),
                None => self@.slot_of(id) is None,
            },
    {
        match id {
            NodeId::Transform(i) => if i < self.transforms.len() {
                Some(self.transforms[i])
            } else {
                None
            },
            NodeId::Camera(i) => if i < self.cameras.len() {
                Some(self.cameras[i])
            } else {
                None
            },
            NodeId::Bundle(i) => if i < self.bundles.len() {
                Some(self.bundles[i])
            } else {
                None
            },
            _ => None,
        }
    }

    /// Makes `parent` the single parent of `child`, replacing the previous
    /// one; `NodeId::Root` puts `child` back under the root. Both must be
    /// nodes of the hierarchy (the root aside), else nothing changes and
    /// `false` is returned. Cycles are not refused here: baking reports them.
    pub fn set_node_parent(&mut self, child: NodeId, parent: NodeId) -> (r: bool)
        requires
            old(self)@.wf(),
        ensures
            final(self)@.wf(),
            r == (old(self)@.slot_of(child) is Some && (parent == NodeId::Root || old(
                self,
            )@.slot_of(parent) is Some)),
            r ==> final(self)@.nodes == old(self)@.nodes.update(
                old(self)@.slot_of(child)->Some_0 as int,
                HierarchyNode {
                    parent: if parent == NodeId::Root {
                        None
                    } else {
                        Some(old(self)@.slot_of(parent)->Some_0 as usize)
                    },
                    ..old(self)@.nodes[old(self)@.slot_of(child)->Some_0 as int]
                },
            ),
            !r ==> final(self)@.nodes == old(self)@.nodes,
            final(self)@.transforms == old(self)@.transforms,
            final(self)@.cameras == old(self)@.cameras,
            final(self)@.camera_settings == old(self)@.camera_settings,
            final(self)@.bundles == old(self)@.bundles,
            final(self)@.markers == old(self)@.markers,
    {
        let c = match self.slot(child) {
            Some(c) => c,
            None => return false,
        };
        let p = if parent == NodeId::Root {
            None
        } else {
            match self.slot(parent) {
                Some(p) => Some(p),
                None => return false,
            }
        };
        let mut node = self.nodes[c];
        node.parent = p;
        self.nodes.set(c, node);
        proof {
            assert forall|h: int| 0 <= h < self@.nodes.len() implies self@.slot_of(
                (#[trigger] self@.nodes[h]).id,
            ) == Some(h as nat) by {
                assert(old(self)@.slot_of(old(self)@.nodes[h].id) == Some(h as nat));
            }
        }
        true
    }

    /// Links a marker to the camera it is viewed by, replacing any earlier
    /// link. Returns `false`, changing nothing, unless both nodes exist.
    pub fn link_marker_to_camera(&mut self, marker: NodeId, camera: NodeId) -> (r: bool)
        requires
            old(self)@.wf(),
        ensures
            final(self)@.wf(),
            r == (old(self)@.has_marker(marker) && old(self)@.has_camera(camera)),
            r ==> final(self)@.markers == old(self)@.markers.update(
                marker->Marker_0 as int,
                MarkerNode {
                    camera: Some(camera->Camera_0),
                    ..old(self)@.markers[marker->Marker_0 as int]
                },
            ),
            !r ==> final(self)@.markers == old(self)@.markers,
            final(self)@.nodes == old(self)@.nodes,
            final(self)@.transforms == old(self)@.transforms,
            final(self)@.cameras == old(self)@.cameras,
            final(self)@.camera_settings == old(self)@.camera_settings,
            final(self)@.bundles == old(self)@.bundles,
    {
        match (marker, camera) {
            (NodeId::Marker(m), NodeId::Camera(c)) => {
                if m < self.markers.len() && c < self.cameras.len() {
                    let mut node = self.markers[m];
                    node.camera = Some(c);
                    self.markers.set(m, node);
                    true
                } else {
                    false
                }
            },
            _ => false,
        }
    }

    /// Links a marker to the bundle it is the image of, replacing any earlier
    /// link. Returns `false`, changing nothing, unless both nodes exist.
    pub fn link_marker_to_bundle(&mut self, marker: NodeId, bundle: NodeId) -> (r: bool)
        requires
            old(self)@.wf(),
        ensures
            final(self)@.wf(),
            r == (old(self)@.has_marker(marker) && old(self)@.has_bundle(bundle)),
            r ==> final(self)@.markers == old(self)@.markers.update(
                marker->Marker_0 as int,
                MarkerNode {
                    bundle: Some(bundle->Bundle_0),
                    ..old(self)@.markers[marker->Marker_0 as int]
                },
            ),
            !r ==> final(self)@.markers == old(self)@.markers,
            final(self)@.nodes == old(self)@.nodes,
            final(self)@.transforms == old(self)@.transforms,
            final(self)@.cameras == old(self)@.cameras,
            final(self)@.camera_settings == old(self)@.camera_settings,
            final(self)@.bundles == old(self)@.bundles,
    {
        match (marker, bundle) {
            (NodeId::Marker(m), NodeId::Bundle(b)) => {
                if m < self.markers.len() && b < self.bundles.len() {
                    let mut node = self.markers[m];
                    node.bundle = Some(b);
                    self.markers.set(m, node);
                    true
                } else {
                    false
                }
            },
            _ => false,
        }
    }

    /// How many transforms, cameras and bundles the hierarchy holds.
    pub fn hierarchy_len(&self) -> (r: usize)
        ensures
            r == self@.nodes.len(),
    {
        self.nodes.len()
    }

    /// The hierarchy node at index `h`.
    pub fn hierarchy_node(&self, h: usize) -> (r: HierarchyNode)
        requires
            h < self@.nodes.len(),
        ensures
            r == self@.nodes[h as int],
    {
        self.nodes[h]
    }

    pub fn num_transforms(&self) -> (r: usize)
        ensures
            r == self@.transforms.len(),
    {
        self.transforms.len()
    }

    pub fn num_cameras(&self) -> (r: usize)
        ensures
            r == self@.cameras.len(),
    {
        self.cameras.len()
    }

    pub fn num_bundles(&self) -> (r: usize)
        ensures
            r == self@.bundles.len(),
    {
        self.bundles.len()
    }

    pub fn num_markers(&self) -> (r: usize)
        ensures
            r == self@.markers.len(),
    {
        self.markers.len()
    }

    /// The settings of the camera with per-kind index `i`.
    pub fn camera_settings(&self, i: usize) -> (r: CameraSettings)
        requires
            i < self@.camera_settings.len(),
        ensures
            r == self@.camera_settings[i as int],
    {
        self.camera_settings[i]
    }

    /// The marker with per-kind index `i`.
    pub fn marker(&self, i: usize) -> (r: MarkerNode)
        requires
            i < self@.markers.len(),
        ensures
            r == self@.markers[i as int],
    {
        self.markers[i]
    }

    /// The camera a marker is linked to; `None` for a marker without one or
    /// for an id that is no marker of this graph.
    pub fn get_camera_node_id_from_marker_node_id(&self, marker: NodeId) -> (r: Option<NodeId>)
        ensures
            r == (if self@.has_marker(marker) {
                match self@.marker_of(marker).camera {
                    Some(c) => Some(NodeId::Camera(c)),
                    None => None,
                }
            } else {
                None
            }),
    {
        match marker {
            NodeId::Marker(m) => if m < self.markers.len() {
                match self.markers[m].camera {
                    Some(c) => Some(NodeId::Camera(c)),
                    None => None,
                }
            } else {
                None
            },
            _ => None,
        }
    }

    /// The bundle a marker is linked to; `None` for a marker without one or
    /// for an id that is no marker of this graph.
    pub fn get_bundle_node_id_from_marker_node_id(&self, marker: NodeId) -> (r: Option<NodeId>)
        ensures
            r == (if self@.has_marker(marker) {
                match self@.marker_of(marker).bundle {
                    Some(b) => Some(NodeId::Bundle(b)),
                    None => None,
                }
            } else {
                None
            }),
    {
        match marker {
            NodeId::Marker(m) => if m < self.markers.len() {
                match self.markers[m].bundle {
                    Some(b) => Some(NodeId::Bundle(b)),
                    None => None,
                }
            } else {
                None
            },
            _ => None,
        }
    }

    /// The parent of a hierarchy node (`NodeId::Root` at the top); `None`
    /// for an id that is no hierarchy node of this graph.
    pub fn get_node_parent(&self, id: NodeId) -> (r: Option<NodeId>)
        requires
            self@.wf(),
        ensures
            r == (match self@.slot_of(id) {
                Some(h) => match self@.parent(h) {
                    Some(p) => Some(self@.nodes[p as int].id),
                    None => Some(NodeId::Root),
                },
                None => None,
            }),
    {
        match self.slot(id) {
            Some(h) => match self.nodes[h].parent {
                Some(p) => Some(self.nodes[p].id),
                None => Some(NodeId::Root),
            },
            None => None,
        }
    }

    /// The ids of the hierarchy nodes whose parent is `id`, in the order
    /// they were added; for `NodeId::Root` the nodes at the top.
    pub fn get_children(&self, id: NodeId) -> (r: Vec<NodeId>)
        requires
            self@.wf(),
        ensures
            r@ == self@.nodes.filter(|n: HierarchyNode| self@.is_parent_of(id, n)).map_values(
                |n: HierarchyNode| n.id,
            ),
    {
        let slot = self.slot(id);
        let ghost pred = |n: HierarchyNode| self@.is_parent_of(id, n);
        let mut out: Vec<NodeId> = Vec::new();
        let mut i: usize = 0;
        while i < self.nodes.len()
            invariant
                i <= self@.nodes.len(),
                self@.wf(),
                slot matches Some(h) ==> self@.slot_of(id) == Some(h as nat),
                slot is None ==> self@.slot_of(id) is None,
                pred == (|n: HierarchyNode| self@.is_parent_of(id, n)),
                out@ == self@.nodes.take(i as int).filter(pred).map_values(
                    |n: HierarchyNode| n.id,
                ),
            decreases self@.nodes.len() - i,
        {
            let node = self.nodes[i];
            let hit = match node.parent {
                None => id == NodeId::Root,
                Some(p) => match slot {
                    Some(h) => h == p,
                    None => false,
                },
            };
            assert(hit == pred(node));
            let ghost before = out@;
            proof {
                let t = self@.nodes.take(i as int + 1);
                assert(t.drop_last() == self@.nodes.take(i as int));
                reveal(Seq::filter);
                assert(t.filter(pred) == if pred(node) {
                    self@.nodes.take(i as int).filter(pred).push(node)
                } else {
                    self@.nodes.take(i as int).filter(pred)
                });
            }
            if hit {
                out.push(node.id);
                proof {
                    let f = self@.nodes.take(i as int).filter(pred);
                    assert(f.push(node).map_values(|n: HierarchyNode| n.id) == f.map_values(
                        |n: HierarchyNode| n.id,
                    ).push(node.id));
                }
            }
            i += 1;
        }
        proof {
            assert(self@.nodes.take(i as int) == self@.nodes);
        }
        out
    }
}

} // verus!
