use mmscenegraph::bake::{bake_scene_graph, BakeError};
use mmscenegraph::evaluationobjects::EvaluationObjects;
use mmscenegraph::graph::SceneGraph;
use mmscenegraph::node::{
    AttrCameraIds, AttrMarkerIds, AttrTransformIds, CameraSettings, FilmFit, NodeId, RotateOrder,
};

fn tfm_attrs(base: usize) -> AttrTransformIds {
    AttrTransformIds {
        tx: base,
        ty: base + 1,
        tz: base + 2,
        rx: base + 3,
        ry: base + 4,
        rz: base + 5,
        sx: base + 6,
        sy: base + 7,
        sz: base + 8,
    }
}

fn cam_settings(base: usize) -> CameraSettings {
    CameraSettings {
        attrs: AttrCameraIds {
            sensor_width: base,
            sensor_height: base + 1,
            focal_length: base + 2,
            lens_offset_x: base + 3,
            lens_offset_y: base + 4,
            near_clip_plane: base + 5,
            far_clip_plane: base + 6,
            camera_scale: base + 7,
        },
        film_fit: FilmFit::Horizontal,
        render_image_width: 2048,
        render_image_height: 1556,
    }
}

fn mkr_attrs(base: usize) -> AttrMarkerIds {
    AttrMarkerIds { tx: base, ty: base + 1, weight: base + 2 }
}

#[test]
fn bake_keeps_only_upstream_nodes_parents_first() {
    let mut sg = SceneGraph::new();
    let a = sg.add_transform(tfm_attrs(0), RotateOrder::XYZ);
    let b = sg.add_transform(tfm_attrs(10), RotateOrder::ZXY);
    let c = sg.add_transform(tfm_attrs(20), RotateOrder::XYZ);
    let d = sg.add_bundle(tfm_attrs(30), RotateOrder::YZX);
    assert!(sg.set_node_parent(b, a));
    assert!(sg.set_node_parent(d, b));
    let mut eval = EvaluationObjects::new();
    eval.add_bundle(d);
    let fs = bake_scene_graph(&sg, &eval).unwrap();
    assert_eq!(fs.tfm_node_ids, vec![a, b, d]);
    assert!(!fs.tfm_node_ids.contains(&c));
    assert_eq!(fs.tfm_node_parent_indices, vec![None, Some(0), Some(1)]);
    assert_eq!(fs.tfm_attr_list, vec![tfm_attrs(0), tfm_attrs(10), tfm_attrs(30)]);
    assert_eq!(fs.rotate_order_list, vec![RotateOrder::XYZ, RotateOrder::ZXY, RotateOrder::YZX]);
    assert_eq!(fs.bnd_ids, vec![d]);
    assert_eq!(fs.bnd_tfm_indices, vec![2]);
    assert_eq!(fs.num_cameras(), 0);
    assert_eq!(fs.num_markers(), 0);
}

#[test]
fn bake_orders_parents_added_after_their_children() {
    // The child is created first, so creation order is not a valid order.
    let mut sg = SceneGraph::new();
    let child = sg.add_bundle(tfm_attrs(0), RotateOrder::XYZ);
    let mid = sg.add_transform(tfm_attrs(10), RotateOrder::XYZ);
    let top = sg.add_transform(tfm_attrs(20), RotateOrder::XYZ);
    assert!(sg.set_node_parent(child, mid));
    assert!(sg.set_node_parent(mid, top));
    let mut eval = EvaluationObjects::new();
    eval.add_bundle(child);
    let fs = bake_scene_graph(&sg, &eval).unwrap();
    assert_eq!(fs.tfm_node_ids, vec![top, mid, child]);
    assert_eq!(fs.tfm_node_indices, vec![2, 1, 0]);
    assert_eq!(fs.tfm_node_parent_indices, vec![None, Some(0), Some(1)]);
    assert_eq!(fs.bnd_tfm_indices, vec![2]);
}

#[test]
fn bake_of_two_node_cycle_fails() {
    let mut sg = SceneGraph::new();
    let x = sg.add_transform(tfm_attrs(0), RotateOrder::XYZ);
    let y = sg.add_bundle(tfm_attrs(10), RotateOrder::XYZ);
    assert!(sg.set_node_parent(x, y));
    assert!(sg.set_node_parent(y, x));
    let mut eval = EvaluationObjects::new();
    eval.add_bundle(y);
    assert!(matches!(bake_scene_graph(&sg, &eval), Err(BakeError::Cycle)));
}

#[test]
fn bake_of_self_parent_fails() {
    let mut sg = SceneGraph::new();
    let x = sg.add_transform(tfm_attrs(0), RotateOrder::XYZ);
    assert!(sg.set_node_parent(x, x));
    let eval = EvaluationObjects::new();
    assert!(matches!(bake_scene_graph(&sg, &eval), Err(BakeError::Cycle)));
}

#[test]
fn bake_fails_on_cycle_outside_the_evaluated_nodes() {
    let mut sg = SceneGraph::new();
    let bnd = sg.add_bundle(tfm_attrs(0), RotateOrder::XYZ);
    let x = sg.add_transform(tfm_attrs(10), RotateOrder::XYZ);
    let y = sg.add_transform(tfm_attrs(20), RotateOrder::XYZ);
    assert!(sg.set_node_parent(x, y));
    assert!(sg.set_node_parent(y, x));
    let mut eval = EvaluationObjects::new();
    eval.add_bundle(bnd);
    assert!(matches!(bake_scene_graph(&sg, &eval), Err(BakeError::Cycle)));
}

#[test]
fn bake_of_empty_evaluation_is_empty() {
    let mut sg = SceneGraph::new();
    let a = sg.add_transform(tfm_attrs(0), RotateOrder::XYZ);
    let b = sg.add_bundle(tfm_attrs(10), RotateOrder::XYZ);
    assert!(sg.set_node_parent(b, a));
    let eval = EvaluationObjects::new();
    let fs = bake_scene_graph(&sg, &eval).unwrap();
    assert_eq!(fs.num_transforms(), 0);
    assert_eq!(fs.num_cameras(), 0);
    assert_eq!(fs.num_bundles(), 0);
    assert_eq!(fs.num_markers(), 0);
    assert!(fs.tfm_node_parent_indices.is_empty());
}

#[test]
fn bake_of_deep_chain_links_each_node_to_previous() {
    let mut sg = SceneGraph::new();
    let mut ids = Vec::new();
    let mut prev = NodeId::Root;
    for i in 0..100 {
        let t = sg.add_transform(tfm_attrs(i * 9), RotateOrder::XYZ);
        assert!(sg.set_node_parent(t, prev));
        ids.push(t);
        prev = t;
    }
    let bnd = sg.add_bundle(tfm_attrs(900), RotateOrder::XYZ);
    assert!(sg.set_node_parent(bnd, prev));
    ids.push(bnd);
    let mut eval = EvaluationObjects::new();
    eval.add_bundle(bnd);
    let fs = bake_scene_graph(&sg, &eval).unwrap();
    assert_eq!(fs.tfm_node_ids, ids);
    assert_eq!(fs.tfm_node_parent_indices[0], None);
    for i in 1..101 {
        assert_eq!(fs.tfm_node_parent_indices[i], Some(i - 1));
    }
}

#[test]
fn bake_resolves_markers_cameras_and_bundles() {
    let mut sg = SceneGraph::new();
    let cam_a = sg.add_camera(tfm_attrs(0), RotateOrder::ZXY, cam_settings(100));
    let cam_b = sg.add_camera(tfm_attrs(10), RotateOrder::XYZ, cam_settings(200));
    let bnd_a = sg.add_bundle(tfm_attrs(20), RotateOrder::XYZ);
    let bnd_b = sg.add_bundle(tfm_attrs(30), RotateOrder::XYZ);
    let grp = sg.add_transform(tfm_attrs(40), RotateOrder::XYZ);
    assert!(sg.set_node_parent(cam_b, grp));
    let mkr_a = sg.add_marker(mkr_attrs(300));
    let mkr_b = sg.add_marker(mkr_attrs(310));
    assert!(sg.link_marker_to_camera(mkr_a, cam_b));
    assert!(sg.link_marker_to_bundle(mkr_a, bnd_b));
    assert!(sg.link_marker_to_camera(mkr_b, cam_a));
    assert!(sg.link_marker_to_bundle(mkr_b, bnd_a));
    let mut eval = EvaluationObjects::new();
    eval.add_camera(cam_a);
    eval.add_camera(cam_b);
    eval.add_bundle(bnd_a);
    eval.add_bundle(bnd_b);
    eval.add_marker(mkr_a);
    eval.add_marker(mkr_b);
    assert!(eval.refs_valid(&sg));
    let fs = bake_scene_graph(&sg, &eval).unwrap();
    assert_eq!(fs.mkr_cam_indices, vec![1, 0]);
    assert_eq!(fs.mkr_bnd_indices, vec![1, 0]);
    assert_eq!(fs.mkr_attr_list, vec![mkr_attrs(300), mkr_attrs(310)]);
    assert_eq!(fs.cam_attr_list, vec![cam_settings(100).attrs, cam_settings(200).attrs]);
    assert_eq!(fs.cam_film_fit_list, vec![FilmFit::Horizontal, FilmFit::Horizontal]);
    assert_eq!(fs.cam_render_res_list, vec![(2048, 1556), (2048, 1556)]);
    assert_eq!(fs.num_transforms(), 5);
    for c in 0..2 {
        let k = fs.cam_tfm_indices[c];
        assert_eq!(fs.tfm_node_ids[k], fs.cam_ids[c]);
    }
    for b in 0..2 {
        let k = fs.bnd_tfm_indices[b];
        assert_eq!(fs.tfm_node_ids[k], fs.bnd_ids[b]);
    }
    let grp_pos = fs.tfm_node_ids.iter().position(|id| *id == grp).unwrap();
    let cam_b_pos = fs.cam_tfm_indices[1];
    assert!(grp_pos < cam_b_pos);
    assert_eq!(fs.tfm_node_parent_indices[cam_b_pos], Some(grp_pos));
}

#[test]
fn bake_fails_on_marker_without_camera() {
    let mut sg = SceneGraph::new();
    let bnd = sg.add_bundle(tfm_attrs(0), RotateOrder::XYZ);
    let mkr = sg.add_marker(mkr_attrs(10));
    assert!(sg.link_marker_to_bundle(mkr, bnd));
    let mut eval = EvaluationObjects::new();
    eval.add_bundle(bnd);
    eval.add_marker(mkr);
    assert!(matches!(bake_scene_graph(&sg, &eval), Err(BakeError::UnresolvedLink)));
}

#[test]
fn bake_fails_on_marker_with_camera_not_evaluated() {
    let mut sg = SceneGraph::new();
    let cam = sg.add_camera(tfm_attrs(0), RotateOrder::XYZ, cam_settings(50));
    let bnd = sg.add_bundle(tfm_attrs(10), RotateOrder::XYZ);
    let mkr = sg.add_marker(mkr_attrs(20));
    assert!(sg.link_marker_to_camera(mkr, cam));
    assert!(sg.link_marker_to_bundle(mkr, bnd));
    let mut eval = EvaluationObjects::new();
    eval.add_bundle(bnd);
    eval.add_marker(mkr);
    assert!(matches!(bake_scene_graph(&sg, &eval), Err(BakeError::UnresolvedLink)));
}

#[test]
fn bake_deduplicates_shared_ancestors() {
    let mut sg = SceneGraph::new();
    let cam = sg.add_camera(tfm_attrs(0), RotateOrder::XYZ, cam_settings(50));
    let bnd = sg.add_bundle(tfm_attrs(10), RotateOrder::XYZ);
    assert!(sg.set_node_parent(bnd, cam));
    let mut eval = EvaluationObjects::new();
    eval.add_camera(cam);
    eval.add_bundle(bnd);
    eval.add_bundle(bnd);
    let fs = bake_scene_graph(&sg, &eval).unwrap();
    assert_eq!(fs.tfm_node_ids, vec![cam, bnd]);
    assert_eq!(fs.bnd_ids, vec![bnd, bnd]);
    assert_eq!(fs.bnd_tfm_indices, vec![1, 1]);
    assert_eq!(fs.cam_tfm_indices, vec![0]);
}
