//! Raw input from mice, keyboards and HID joysticks, turned into a stream of
//! typed, edge-triggered events.
//!
//! - `devices`: capability tables, joystick state and the device catalog
//!   with its handle map and name filter.
//! - `joystick`, `mouse`, `keyboard`: report decoders.
//! - `event`: the event types and the state diff that explains a change.
//! - `rawinput`: catalog construction and the batch-to-queue pipeline.
//! - `registrar`: which device classes are registered.
//! - `manager`: the state kept by the worker that owns the input resources.
pub mod devices;
pub mod event;
pub mod joystick;
pub mod keyboard;
pub mod manager;
pub mod mouse;
pub mod rawinput;
pub mod registrar;
