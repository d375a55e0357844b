//! A verified animation engine for addressable lighting devices.
//!
//! Devices are identified by small integers and carry a handful of optional
//! attributes (on/off, brightness, hue, saturation, transition time).  An
//! animation is a looping sequence of declarative steps; each step maps
//! device identifiers to per-attribute transforms that are evaluated against
//! a snapshot of the current device states.  A scheduler drains a command
//! queue and advances the active animation on a wall-clock cadence.

pub mod animation;
pub mod builder;
pub mod color;
pub mod config;
pub mod connection;
pub mod device_map;
pub mod effects;
mod entropy;
pub mod light;
pub mod motion;
pub mod operation;
pub mod producer;
pub mod scheduler;
pub mod server;
pub mod transform;

pub use animation::{
    transition_ticks, AnimationFrame, DynamicAnimation, DynamicAnimationStep, LoopingAnimation,
    Millis,
};
pub use builder::{AnimationFrameBuilder, ColorChange};
pub use color::Color;
pub use config::HooConfig;
pub use connection::{ApiError, TestingApiConnection};
pub use device_map::{DeviceMap, LightCollection};
pub use effects::{
    create_random_animation, create_sleepy_random_animation, rainbow, rotate_current, EffectError,
    RotateAnimation,
};
pub use light::{Light, LightAlert, LightColorMode, LightEffect, LightNumber, LightState};
pub use motion::{Motion, MotionState};
pub use operation::{average_brightness, ApplyRule, AttributeOperation};
pub use producer::{
    constant, random, random_range, ConstantProducer, Producer, RandomProducer,
    RandomRangeProducer, ValueProducer,
};
pub use scheduler::{ActiveAnimation, AnimationKind, HooCommand, Scheduler, SchedulerAction};
pub use server::{
    next_path_component, AnimationQuery, AnimationSettings, HooError, HooResponse, RGB,
};
pub use transform::{transform, ConfigurableValue, DeviceStateTransform};
