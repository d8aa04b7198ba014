//! Driver for the PlayStation / PlayStation 2 controller bus.
//!
//! The driver bit-bangs the four lines of the bus through digital pins and
//! a delay service, exchanges command and response frames with the
//! controller, and decodes buttons, sticks and identity from the responses.
//! A [`controller::Controller`] keeps the connection and the last two button
//! snapshots; the [`Gamepad`] trait is how its state is read.

use vstd::prelude::*;

pub mod bus;
pub mod buttons;
pub mod commands;
pub mod controller;
pub mod device;
pub mod driver;
pub mod frame;
pub mod prelude;
pub mod protocol;

use crate::buttons::{
    all_held, any_changed, any_held, held_mask, went_down, went_up, AnalogSticks, Button,
    NO_BUTTONS,
};
use crate::commands::DeviceMode;

verus! {

/// What a gamepad shows to its user.
pub struct GamepadView {
    /// The current snapshot of the button field, active low.
    pub buttons: u16,
    /// The snapshot before the current one.
    pub buttons_prev: u16,
    /// The current stick positions.
    pub sticks: AnalogSticks,
    /// The mode the controller last reported.
    pub mode: DeviceMode,
}

/// Reading the state of a gamepad. Every query is safe in any state.
///
/// `pad` is what the queries speak of. It is ghost and never called when the
/// program runs: an implementation outside verified code may give it any
/// body.
pub trait Gamepad {
    spec fn pad(&self) -> GamepadView;

    /// Whether the controller is in analog mode.
    fn is_analog(&self) -> (analog: bool)
        ensures
            analog == (self.pad().mode == DeviceMode::Analog),
    ;

    /// Whether the current snapshot is a reading at all.
    fn is_active(&self) -> (active: bool)
        ensures
            active == (self.pad().buttons != NO_BUTTONS),
    ;

    /// Whether the button went down or up between the last two snapshots.
    fn is_changed(&self, btn: Button) -> (changed: bool)
        ensures
            changed == any_changed(self.pad().buttons_prev, self.pad().buttons, btn.spec_mask()),
    ;

    /// Whether the button is pressed.
    fn is_pressed(&self, btn: Button) -> (pressed: bool)
        ensures
            pressed == any_held(self.pad().buttons, btn.spec_mask()),
    ;

    /// Whether every button of the mask is pressed.
    fn is_pressed_all(&self, mask: u16) -> (pressed: bool)
        ensures
            pressed == all_held(self.pad().buttons, mask),
    ;

    /// Whether some button of the mask is pressed.
    fn is_pressed_any(&self, mask: u16) -> (pressed: bool)
        ensures
            pressed == any_held(self.pad().buttons, mask),
    ;

    /// Whether the button changed and is now pressed.
    fn is_down(&self, btn: Button) -> (down: bool)
        ensures
            down == went_down(self.pad().buttons_prev, self.pad().buttons, btn.spec_mask()),
    ;

    /// Whether the button changed and was pressed before.
    fn is_up(&self, btn: Button) -> (up: bool)
        ensures
            up == went_up(self.pad().buttons_prev, self.pad().buttons, btn.spec_mask()),
    ;

    /// The buttons of the filter that are pressed, as a mask.
    fn pressed_buttons(&self, filter: u16) -> (pressed: u16)
        ensures
            pressed == held_mask(self.pad().buttons, filter),
    ;

    /// The current stick positions.
    fn analog_sticks(&self) -> (sticks: AnalogSticks)
        ensures
            sticks == self.pad().sticks,
    ;

    /// The whammy bar of a guitar peripheral, which reports it as the
    /// vertical axis of the left stick.
    fn whammy_bar(&self) -> (bar: u8)
        ensures
            bar == self.pad().sticks.ly,
    ;
}

} // verus!
