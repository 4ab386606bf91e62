//! Navigation-map core: an integer similarity transform driven by gestures,
//! a bounding-box road index, the shared navigation state, and the per-frame
//! render plan that projects trail, position, roads and a compass to screen space.

pub mod geometry;
pub mod projection;
pub mod render;
pub mod road_index;
pub mod state;
pub mod transform;
