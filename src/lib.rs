//! The decision logic of a recursive ray tracer: the scene collection, the
//! choice of the nearest hit among its members, and the policy that bounds
//! the bounces of a path.

pub mod frame;
pub mod hittable_list;
pub mod nearest_hit;
pub mod path;
