//! Gameplay rules of a small 2D arena: a kinematic player, mobile balls that
//! can be shot away or locked beside the player, and two boundary policies
//! (score and despawn, or confine and bounce).
//!
//! All quantities are integers in world units chosen by the host; a host that
//! works in floating point scales and rounds at its edge. The host also owns
//! the physics step that turns velocities and impulses into new positions.

pub mod geometry;
pub mod input;
pub mod targeting;
pub mod arena;
pub mod config;
pub mod spawn;
pub mod tick;

pub use geometry::{Vector2, scaled_direction};
pub use input::{
    DirectionKeys, InputMapper, KeyEdge, KeySnapshot, TickInput, INTENT_SCALE, MICROS_PER_SECOND,
    intent_vector, movement_delta,
};
pub use targeting::{in_contact, in_range};
pub use arena::{Arena, Mobile, Player};
pub use config::{
    BALL_SIZE, BALL_SPEED, INITIAL_BALL_COUNT, PLAYER_RANGE, PLAYER_SIZE, PLAYER_SPEED,
    SHOOT_BASE_STRENGTH,
};
pub use spawn::{random_position, spawn_player};
pub use tick::BoundaryPolicy;
