//! Node identifiers, the enums that nodes carry and the attribute-id bundles
//! that reference per-frame values held outside the scene graph.
use vstd::prelude::*;

verus! {

/// Identifier of an attribute column in the caller's attribute storage.
pub type AttrId = usize;

/// A tagged node identifier. The index is a dense counter per kind of node.
#[derive(Clone, Copy, Debug, PartialEq, Eq, Structural, Hash)]
pub enum NodeId {
    Root,
    Transform(usize),
    Camera(usize),
    Bundle(usize),
    Marker(usize),
}

/// The order in which the three axis rotations are applied.
///
/// Matrices act on column vectors from the right, so the product of the
/// rotation matrices is written in the reverse of the named order:
/// `XYZ` is composed as `Rz * Ry * Rx`.
#[derive(Clone, Copy, Debug, PartialEq, Eq, Structural, Hash)]
pub enum RotateOrder {
    XYZ,
    YZX,
    ZXY,
    XZY,
    YXZ,
    ZYX,
}

/// How the sensor's aspect ratio is matched against the render image's.
#[derive(Clone, Copy, Debug, PartialEq, Eq, Structural, Hash)]
pub enum FilmFit {
    Horizontal,
    Vertical,
    Fill,
    Overscan,
}

/// The nine attribute ids of a transformable node.
#[derive(Clone, Copy, Debug, PartialEq, Eq, Structural, Hash)]
pub struct AttrTransformIds {
    pub tx: AttrId,
    pub ty: AttrId,
    pub tz: AttrId,
    pub rx: AttrId,
    pub ry: AttrId,
    pub rz: AttrId,
    pub sx: AttrId,
    pub sy: AttrId,
    pub sz: AttrId,
}

/// The animated attribute ids of a camera's lens and film back.
#[derive(Clone, Copy, Debug, PartialEq, Eq, Structural, Hash)]
pub struct AttrCameraIds {
    pub sensor_width: AttrId,
    pub sensor_height: AttrId,
    pub focal_length: AttrId,
    pub lens_offset_x: AttrId,
    pub lens_offset_y: AttrId,
    pub near_clip_plane: AttrId,
    pub far_clip_plane: AttrId,
    pub camera_scale: AttrId,
}

/// The attribute ids of a 2D marker: its position and its weight.
#[derive(Clone, Copy, Debug, PartialEq, Eq, Structural, Hash)]
pub struct AttrMarkerIds {
    pub tx: AttrId,
    pub ty: AttrId,
    pub weight: AttrId,
}

/// The non-animated settings of a camera.
#[derive(Clone, Copy, Debug, PartialEq, Eq, Structural, Hash)]
pub struct CameraSettings {
    pub attrs: AttrCameraIds,
    pub film_fit: FilmFit,
    pub render_image_width: i32,
    pub render_image_height: i32,
}

} // verus!
