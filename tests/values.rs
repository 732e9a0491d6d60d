use mmscenegraph::animdense::AnimDenseAttr;
use mmscenegraph::node::RotateOrder;
use mmscenegraph::transform::Transform;

#[test]
fn anim_dense_attr_indexes_by_offset_from_start() {
    let mut attr: AnimDenseAttr<f64> = AnimDenseAttr::new();
    assert_eq!(attr.frame_start, 0);
    assert!(attr.get_values().is_empty());
    attr.frame_start = 1001;
    attr.set_values(vec![1.0, 2.0, 3.0]);
    assert_eq!(attr.get_value(1001), 1.0);
    assert_eq!(attr.get_value(1003), 3.0);
    attr.set_value(1002, 5.5);
    assert_eq!(attr.get_values(), &vec![1.0, 5.5, 3.0]);
}

#[test]
fn transform_constructors_fill_identity_fields() {
    let t: Transform<f64> = Transform::new();
    assert_eq!((t.tx, t.ty, t.tz), (0.0, 0.0, 0.0));
    assert_eq!((t.rx, t.ry, t.rz), (0.0, 0.0, 0.0));
    assert_eq!((t.sx, t.sy, t.sz), (1.0, 1.0, 1.0));
    assert_eq!(t.roo, RotateOrder::XYZ);

    let t = Transform::from_txyz_rxyz_sxyz(1.0, 2.0, 3.0, 45.0, 15.0, 5.0, RotateOrder::ZYX, 2.0, 3.0, 4.0);
    assert_eq!((t.tx, t.ty, t.tz), (1.0, 2.0, 3.0));
    assert_eq!((t.rx, t.ry, t.rz), (45.0, 15.0, 5.0));
    assert_eq!((t.sx, t.sy, t.sz), (2.0, 3.0, 4.0));
    assert_eq!(t.roo, RotateOrder::ZYX);
    assert_eq!((t.spx, t.shxy, t.rax, t.rpx, t.rptz, t.sptx), (0.0, 0.0, 0.0, 0.0, 0.0, 0.0));

    let t = Transform::from_txyz_rxyz(-2.0, 2.0, 5.0, 10.0, -10.0, -10.0, RotateOrder::YXZ);
    assert_eq!((t.tx, t.rz, t.sx, t.sz), (-2.0, -10.0, 1.0, 1.0));

    let t = Transform::from_txyz(0.0, 42.0, 0.0);
    assert_eq!((t.ty, t.rx, t.sy, t.roo), (42.0, 0.0, 1.0, RotateOrder::XYZ));

    let t = Transform::from_rxyz(45.0, 15.0, 5.0, RotateOrder::XZY);
    assert_eq!((t.tx, t.ry, t.sz, t.roo), (0.0, 15.0, 1.0, RotateOrder::XZY));

    let t = Transform::from_sxyz(2.0, 3.0, 4.0);
    assert_eq!((t.tx, t.rx, t.sx, t.sy, t.sz), (0.0, 0.0, 2.0, 3.0, 4.0));

    let t = Transform::from_s(2.5);
    assert_eq!((t.sx, t.sy, t.sz, t.tz), (2.5, 2.5, 2.5, 0.0));
}
