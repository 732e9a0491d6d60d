//! The cameras, bundles and markers chosen for the next bake, each list in
//! the order the nodes were added.
use crate::graph::{SceneGraph, SceneGraphModel};
use crate::node::NodeId;
use vstd::prelude::*;

verus! {

pub struct EvaluationObjects {
    cameras: Vec<NodeId>,
    bundles: Vec<NodeId>,
    markers: Vec<NodeId>,
}

pub struct EvaluationObjectsModel {
    pub cameras: Seq<NodeId>,
    pub bundles: Seq<NodeId>,
    pub markers: Seq<NodeId>,
}

impl View for EvaluationObjects {
    type V = EvaluationObjectsModel;

    closed spec fn view(&self) -> EvaluationObjectsModel {
        EvaluationObjectsModel {
            cameras: self.cameras@,
            bundles: self.bundles@,
            markers: self.markers@,
        }
    }
}

impl EvaluationObjectsModel {
    /// Every entry names an existing node of the right kind in `sg`.
    pub open spec fn refs_valid(self, sg: SceneGraphModel) -> bool {
        &&& forall|i: int| 0 <= i < self.cameras.len() ==> sg.has_camera(#[trigger] self.cameras[i])
        &&& forall|i: int| 0 <= i < self.bundles.len() ==> sg.has_bundle(#[trigger] self.bundles[i])
        &&& forall|i: int| 0 <= i < self.markers.len() ==> sg.has_marker(#[trigger] self.markers[i])
    }
}

impl EvaluationObjects {
    pub fn new() -> (r: EvaluationObjects)
        ensures
            r@.cameras.len() == 0,
            r@.bundles.len() == 0,
            r@.markers.len() == 0,
    {
        EvaluationObjects { cameras: Vec::new(), bundles: Vec::new(), markers: Vec::new() }
    }

    /// Empties the three lists.
    pub fn clear_all(&mut self)
        ensures
            final(self)@.cameras.len() == 0,
            final(self)@.bundles.len() == 0,
            final(self)@.markers.len() == 0,
    {
        self.cameras.clear();
        self.bundles.clear();
        self.markers.clear();
    }

    pub fn add_camera(&mut self, camera: NodeId)
        ensures
            final(self)@.cameras == old(self)@.cameras.push(camera),
            final(self)@.bundles == old(self)@.bundles,
            final(self)@.markers == old(self)@.markers,
    {
        self.cameras.push(camera);
    }

    pub fn add_bundle(&mut self, bundle: NodeId)
        ensures
            final(self)@.bundles == old(self)@.bundles.push(bundle),
            final(self)@.cameras == old(self)@.cameras,
            final(self)@.markers == old(self)@.markers,
    {
        self.bundles.push(bundle);
    }

    pub fn add_marker(&mut self, marker: NodeId)
        ensures
            final(self)@.markers == old(self)@.markers.push(marker),
            final(self)@.cameras == old(self)@.cameras,
            final(self)@.bundles == old(self)@.bundles,
    {
        self.markers.push(marker);
    }

    pub fn get_cameras(&self) -> (r: &[NodeId])
        ensures
            r@ == self@.cameras,
    {
        self.cameras.as_slice()
    }

    pub fn get_bundles(&self) -> (r: &[NodeId])
        ensures
            r@ == self@.bundles,
    {
        self.bundles.as_slice()
    }

    pub fn get_markers(&self) -> (r: &[NodeId])
        ensures
            r@ == self@.markers,
    {
        self.markers.as_slice()
    }

    pub fn num_cameras(&self) -> (r: usize)
        ensures
            r == self@.cameras.len(),
    {
        self.cameras.len()
    }

    pub fn num_bundles(&self) -> (r: usize)
        ensures
            r == self@.bundles.len(),
    {
        self.bundles.len()
    }

    pub fn num_markers(&self) -> (r: usize)
        ensures
            r == self@.markers.len(),
    {
        self.markers.len()
    }

    /// Whether every entry names an existing node of the right kind in `sg`,
    /// as baking requires.
    pub fn refs_valid(&self, sg: &SceneGraph) -> (r: bool)
        ensures
            r == self@.refs_valid(sg@),
    {
        let mut i: usize = 0;
        while i < self.cameras.len()
            invariant
                i <= self@.cameras.len(),
                forall|k: int| 0 <= k < i ==> sg@.has_camera(#[trigger] self@.cameras[k]),
            decreases self@.cameras.len() - i,
        {
            match self.cameras[i] {
                NodeId::Camera(c) => if c >= sg.num_cameras() {
                    return false;
                },
                _ => return false,
            }
            i += 1;
        }
        let mut i: usize = 0;
        while i < self.bundles.len()
            invariant
                i <= self@.bundles.len(),
                forall|k: int| 0 <= k < self@.cameras.len() ==> sg@.has_camera(#[trigger] self@.cameras[k]),
                forall|k: int| 0 <= k < i ==> sg@.has_bundle(#[trigger] self@.bundles[k]),
            decreases self@.bundles.len() - i,
        {
            match self.bundles[i] {
                NodeId::Bundle(b) => if b >= sg.num_bundles() {
                    return false;
                },
                _ => return false,
            }
            i += 1;
        }
        let mut i: usize = 0;
        while i < self.markers.len()
            invariant
                i <= self@.markers.len(),
                forall|k: int| 0 <= k < self@.cameras.len() ==> sg@.has_camera(#[trigger] self@.cameras[k]),
                forall|k: int| 0 <= k < self@.bundles.len() ==> sg@.has_bundle(#[trigger] self@.bundles[k]),
                forall|k: int| 0 <= k < i ==> sg@.has_marker(#[trigger] self@.markers[k]),
            decreases self@.markers.len() - i,
        {
            match self.markers[i] {
                NodeId::Marker(m) => if m >= sg.num_markers() {
                    return false;
                },
                _ => return false,
            }
            i += 1;
        }
        true
    }
}

} // verus!
