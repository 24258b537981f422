//! Fixed-point steering behaviours and waypoint traversal for 2D agents.
//!
//! Every quantity is an integer; a value `q` stands for the real number
//! `q / ONE`.  Distances are compared through their squares, so the only
//! rounding happens where a vector is rescaled or divided, and it is always
//! toward zero: no force and no velocity is ever longer than its limit.
//!
//! - `fixed`: rounding division, integer square roots, the affine map.
//! - `vector`: points, vectors, and the limit on a vector's length.
//! - `steering`: an agent, the forces of seek, flee, arrive and wander, and
//!   the integration step.
//! - `flock`: separation, alignment and cohesion among agents, and one
//!   frame of an agent of a flock.
//! - `waypoint`: actors that walk a queue of waypoints, once or on patrol.
//! - `game_timer`: the time of a frame.

pub mod fixed;
pub mod flock;
pub mod game_timer;
pub mod steering;
pub mod vector;
pub mod waypoint;

pub use crate::fixed::{affine_transform, ceil_sqrt_of, floor_sqrt_of, ONE};
pub use crate::flock::{align, cohesion, separate, Flock, Rule, Rules};
pub use crate::steering::Vehicle;
pub use crate::vector::{limit_vector2, Point2, Vector2};
pub use crate::waypoint::{
    actor_at_waypoint, advance, check_if_player_reached_waypoint, move_first_to_last,
    move_towards_destination, move_towards_next_waypoint, update_player, update_walker, Actor,
    Traversal, Waypoint, WaypointWalker,
};
