use mmscenegraph::evaluationobjects::EvaluationObjects;
use mmscenegraph::graph::SceneGraph;
use mmscenegraph::node::{AttrMarkerIds, AttrTransformIds, NodeId, RotateOrder};

fn attrs() -> AttrTransformIds {
    AttrTransformIds { tx: 0, ty: 1, tz: 2, rx: 3, ry: 4, rz: 5, sx: 6, sy: 7, sz: 8 }
}

#[test]
fn new_nodes_get_dense_ids_under_root() {
    let mut sg = SceneGraph::new();
    assert_eq!(sg.add_transform(attrs(), RotateOrder::XYZ), NodeId::Transform(0));
    assert_eq!(sg.add_transform(attrs(), RotateOrder::XYZ), NodeId::Transform(1));
    assert_eq!(sg.add_bundle(attrs(), RotateOrder::XYZ), NodeId::Bundle(0));
    let m = sg.add_marker(AttrMarkerIds { tx: 0, ty: 1, weight: 2 });
    assert_eq!(m, NodeId::Marker(0));
    assert_eq!(sg.get_node_parent(NodeId::Transform(1)), Some(NodeId::Root));
    assert_eq!(sg.get_node_parent(m), None);
    assert_eq!(sg.hierarchy_len(), 3);
    assert_eq!(sg.num_markers(), 1);
}

#[test]
fn set_node_parent_replaces_parent_and_refuses_unknown_nodes() {
    let mut sg = SceneGraph::new();
    let a = sg.add_transform(attrs(), RotateOrder::XYZ);
    let b = sg.add_transform(attrs(), RotateOrder::XYZ);
    let c = sg.add_bundle(attrs(), RotateOrder::XYZ);
    assert!(sg.set_node_parent(c, a));
    assert_eq!(sg.get_node_parent(c), Some(a));
    assert!(sg.set_node_parent(c, b));
    assert_eq!(sg.get_node_parent(c), Some(b));
    assert_eq!(sg.get_children(a), Vec::<NodeId>::new());
    assert_eq!(sg.get_children(b), vec![c]);
    assert_eq!(sg.get_children(NodeId::Root), vec![a, b]);
    assert!(sg.set_node_parent(c, NodeId::Root));
    assert_eq!(sg.get_children(NodeId::Root), vec![a, b, c]);
    assert!(!sg.set_node_parent(NodeId::Transform(7), a));
    assert!(!sg.set_node_parent(a, NodeId::Bundle(3)));
    assert!(!sg.set_node_parent(NodeId::Root, a));
}

#[test]
fn marker_links_are_replaced_and_checked() {
    let mut sg = SceneGraph::new();
    let b0 = sg.add_bundle(attrs(), RotateOrder::XYZ);
    let b1 = sg.add_bundle(attrs(), RotateOrder::XYZ);
    let m = sg.add_marker(AttrMarkerIds { tx: 0, ty: 1, weight: 2 });
    assert_eq!(sg.get_bundle_node_id_from_marker_node_id(m), None);
    assert!(sg.link_marker_to_bundle(m, b0));
    assert!(sg.link_marker_to_bundle(m, b1));
    assert_eq!(sg.get_bundle_node_id_from_marker_node_id(m), Some(b1));
    assert!(!sg.link_marker_to_bundle(m, NodeId::Bundle(5)));
    assert!(!sg.link_marker_to_camera(m, b0));
    assert_eq!(sg.get_camera_node_id_from_marker_node_id(m), None);
}

#[test]
fn evaluation_objects_keep_insertion_order() {
    let mut sg = SceneGraph::new();
    let b0 = sg.add_bundle(attrs(), RotateOrder::XYZ);
    let b1 = sg.add_bundle(attrs(), RotateOrder::XYZ);
    let mut eval = EvaluationObjects::new();
    eval.add_bundle(b1);
    eval.add_bundle(b0);
    eval.add_bundle(b1);
    assert_eq!(eval.get_bundles(), &[b1, b0, b1]);
    assert_eq!(eval.num_bundles(), 3);
    assert!(eval.refs_valid(&sg));
    eval.add_camera(b0);
    assert!(!eval.refs_valid(&sg));
    eval.clear_all();
    assert_eq!(eval.num_cameras(), 0);
    assert_eq!(eval.num_bundles(), 0);
    assert_eq!(eval.num_markers(), 0);
}
