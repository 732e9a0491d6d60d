//! Scene-graph baking: a mutable hierarchy of transform, camera, bundle and
//! marker nodes is flattened into a parent-before-child ordered structure
//! that can be evaluated frame after frame.

pub mod animdense;
pub mod bake;
pub mod evaluationobjects;
pub mod flat;
pub mod graph;
pub mod hierarchy;
pub mod node;
pub mod transform;
