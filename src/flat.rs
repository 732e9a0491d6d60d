//! The baked scene: flat arrays of node ids, attribute ids and indices,
//! detached from the scene graph it was built from.
use crate::node::{AttrCameraIds, AttrMarkerIds, AttrTransformIds, FilmFit, NodeId, RotateOrder};
use vstd::prelude::*;

verus! {

/// A baked scene. The transform arrays (`tfm_*`, `rotate_order_list`) are
/// parallel and list parents before children; the camera arrays (`cam_*`)
/// follow the evaluated cameras, the marker arrays (`mkr_*`) the evaluated
/// markers. Indices point into these arrays, never at scene-graph nodes.
pub struct FlatScene {
    /// The evaluated bundles, in the order they were chosen.
    pub bnd_ids: Vec<NodeId>,
    /// The evaluated cameras, in the order they were chosen.
    pub cam_ids: Vec<NodeId>,
    /// The evaluated markers, in the order they were chosen.
    pub mkr_ids: Vec<NodeId>,
    /// For each marker, the index in `cam_ids` of its camera.
    pub mkr_cam_indices: Vec<usize>,
    /// For each marker, the index in `bnd_ids` of its bundle.
    pub mkr_bnd_indices: Vec<usize>,
    pub tfm_attr_list: Vec<AttrTransformIds>,
    pub rotate_order_list: Vec<RotateOrder>,
    pub cam_attr_list: Vec<AttrCameraIds>,
    pub cam_film_fit_list: Vec<FilmFit>,
    /// Render image width and height of each camera, in pixels.
    pub cam_render_res_list: Vec<(i32, i32)>,
    pub mkr_attr_list: Vec<AttrMarkerIds>,
    pub tfm_node_ids: Vec<NodeId>,
    /// The scene-graph hierarchy index of each transform.
    pub tfm_node_indices: Vec<usize>,
    /// For each transform, the index of its parent in the transform arrays;
    /// `None` directly under the root.
    pub tfm_node_parent_indices: Vec<Option<usize>>,
    /// For each camera, the index of its transform in the transform arrays.
    pub cam_tfm_indices: Vec<usize>,
    /// For each bundle, the index of its transform in the transform arrays.
    pub bnd_tfm_indices: Vec<usize>,
}

impl FlatScene {
    pub fn num_transforms(&self) -> (r: usize)
        ensures
            r == self.tfm_node_ids.len(),
    {
        self.tfm_node_ids.len()
    }

    pub fn num_cameras(&self) -> (r: usize)
        ensures
            r == self.cam_ids.len(),
    {
        self.cam_ids.len()
    }

    pub fn num_bundles(&self) -> (r: usize)
        ensures
            r == self.bnd_ids.len(),
    {
        self.bnd_ids.len()
    }

    pub fn num_markers(&self) -> (r: usize)
        ensures
            r == self.mkr_ids.len(),
    {
        self.mkr_ids.len()
    }
}

} // verus!
