//! Bridge between a camera's object-tracking notifications and the event
//! API of a video recorder: inbound framing, the per-device event tracker,
//! the login-and-retry policy toward the recorder, and its request targets.

pub mod config;
pub mod endpoints;
pub mod notification;
pub mod retry;
pub mod tracker;

pub use config::{Config, ConfigError};
pub use notification::{CameraEvent, FrameError, Status};
pub use retry::{Event, LoginRetry, Reply, Step};
pub use tracker::{Action, TrackError, Tracker};
