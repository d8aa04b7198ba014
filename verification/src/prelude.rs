//! The names most users need.

pub use crate::buttons::{AnalogSticks as Ps2AnalogSticks, Button as Ps2Button};
pub use crate::commands::{DeviceState as Ps2DeviceState, DeviceType as Ps2DeviceType};
pub use crate::controller::create_psx_controller;
pub use crate::controller::Controller as Ps2Controller;
pub use crate::Gamepad as Ps2Gamepad;
