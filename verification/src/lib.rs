//! A fixed-timestep simulation core for small arcade games.
//!
//! The crate holds the decisions of a frame, each with a proved contract:
//! how many physics ticks a span of wall-clock time is worth, which of the
//! impulses submitted since the last tick act on a velocity and in what
//! order, in which order the stages of a frame run, and how a frame-driven
//! animation moves through its frames. Rendering, input, audio and the
//! arithmetic on the host's vectors are left to the host.

pub mod animation;
pub mod catalog;
pub mod clock;
pub mod cycle;
pub mod impulse;
pub mod schedule;
pub mod wall;

pub use crate::animation::{AnimationError, AnimationFrame, AnimationOption, PerFrameAnimation};
pub use crate::catalog::Animations;
pub use crate::clock::{physics_clock, PhysicsTimer, PHYSICS_TICK_TIME};
pub use crate::cycle::{AnimationCycle, AnimationEvent};
pub use crate::impulse::{apply_impulses, sum_impulses, Impulse};
pub use crate::schedule::{FrameSchedule, Stage};
pub use crate::wall::wall_rows;
