use std::cell::RefCell;
use std::convert::Infallible;
use std::rc::Rc;

use embedded_hal::delay::DelayNs;
use embedded_hal::digital::{ErrorKind, ErrorType, InputPin, OutputPin, PinState};
use ps2_gamepad::bus::{Levels, Waits};
use ps2_gamepad::buttons::Button;
use ps2_gamepad::commands::{DeviceMode, DeviceState};
use ps2_gamepad::controller::create_psx_controller;
use ps2_gamepad::device::{
    DelayService, DigitalInput, DigitalOutput, LineFault, PsxDevice, PsxTrasferData,
};
use ps2_gamepad::Gamepad;

struct OnInput<P>(P);

impl<P: InputPin> DigitalInput for OnInput<P> {
    fn seen(&self) -> Levels {
        unreachable!()
    }

    fn is_high(&mut self) -> Result<bool, LineFault> {
        self.0.is_high().map_err(|_| LineFault)
    }
}

struct OnOutput<P>(P);

impl<P: OutputPin> DigitalOutput for OnOutput<P> {
    fn driven(&self) -> Levels {
        unreachable!()
    }

    fn set_level(&mut self, high: bool) -> Result<(), LineFault> {
        self.0.set_state(PinState::from(high)).map_err(|_| LineFault)
    }
}

struct OnDelay<D>(D);

impl<D: DelayNs> DelayService for OnDelay<D> {
    fn waited(&self) -> Waits {
        unreachable!()
    }

    fn delay_ns(&mut self, ns: u32) {
        self.0.delay_ns(ns)
    }
}

/// An output pin that notes the states it was set to.
struct Pin(Rc<RefCell<Vec<PinState>>>);

impl ErrorType for Pin {
    type Error = Infallible;
}

impl OutputPin for Pin {
    fn set_low(&mut self) -> Result<(), Infallible> {
        self.0.borrow_mut().push(PinState::Low);
        Ok(())
    }

    fn set_high(&mut self) -> Result<(), Infallible> {
        self.0.borrow_mut().push(PinState::High);
        Ok(())
    }
}

/// An output pin that always fails.
struct DeadPin;

impl ErrorType for DeadPin {
    type Error = ErrorKind;
}

impl OutputPin for DeadPin {
    fn set_low(&mut self) -> Result<(), ErrorKind> {
        Err(ErrorKind::Other)
    }

    fn set_high(&mut self) -> Result<(), ErrorKind> {
        Err(ErrorKind::Other)
    }
}

/// An input pin that plays the bits of a script, least significant first.
struct Data {
    script: Vec<u8>,
    bit: usize,
    dead: bool,
}

impl ErrorType for Data {
    type Error = ErrorKind;
}

impl InputPin for Data {
    fn is_high(&mut self) -> Result<bool, ErrorKind> {
        if self.dead {
            return Err(ErrorKind::Other);
        }
        let byte = self.bit / 8;
        let level = byte < self.script.len() && (self.script[byte] >> (self.bit % 8)) & 1 == 1;
        self.bit += 1;
        Ok(level)
    }

    fn is_low(&mut self) -> Result<bool, ErrorKind> {
        self.is_high().map(|level| !level)
    }
}

struct Clock(Rc<RefCell<u64>>);

impl DelayNs for Clock {
    fn delay_ns(&mut self, ns: u32) {
        *self.0.borrow_mut() += ns as u64;
    }
}

fn states() -> Rc<RefCell<Vec<PinState>>> {
    Rc::new(RefCell::new(Vec::new()))
}

#[test]
fn hal_pins_carry_a_byte_exchange() {
    let (cmd, att, clk) = (states(), states(), states());
    let elapsed = Rc::new(RefCell::new(0u64));
    let mut dev = PsxDevice::new(
        OnInput(Data { script: vec![0x5A], bit: 0, dead: false }),
        OnOutput(Pin(cmd.clone())),
        OnOutput(Pin(att.clone())),
        OnOutput(Pin(clk.clone())),
        OnDelay(Clock(elapsed.clone())),
    );
    dev.start_cmd();
    assert_eq!(dev.send_8bit(0x01), 0x5A);
    dev.stop_cmd();

    let mut command = vec![PinState::High, PinState::High];
    command.extend([PinState::Low; 7]);
    command.push(PinState::High);
    assert_eq!(*cmd.borrow(), command);
    assert_eq!(*att.borrow(), vec![PinState::Low, PinState::High]);
    let mut clock = vec![PinState::High];
    for _ in 0..8 {
        clock.push(PinState::Low);
        clock.push(PinState::High);
    }
    assert_eq!(*clk.borrow(), clock);
    assert_eq!(*elapsed.borrow(), 6000 + 36_000 + 4000);
}

#[test]
fn hal_pins_carry_a_poll() {
    let script = vec![0xFF, 0x41, 0x5A, 0xFF, 0xFF, 0xFF, 0x41, 0x5A, 0xFE, 0xFF];
    let elapsed = Rc::new(RefCell::new(0u64));
    let mut pad = create_psx_controller(
        OnInput(Data { script, bit: 0, dead: false }),
        OnOutput(Pin(states())),
        OnOutput(Pin(states())),
        OnOutput(Pin(states())),
        OnDelay(Clock(elapsed.clone())),
    );
    pad.reconnect();
    assert_eq!(pad.state, DeviceState::Connected);
    pad.poll();
    assert_eq!(pad.state, DeviceState::Connected);
    assert_eq!(pad.cmode, DeviceMode::Digital);
    assert!(pad.is_pressed(Button::Select));
    assert_eq!(pad.pressed_buttons(0xFFFF), 0x0001);
    let command = 6000 + 5 * 36_000 + 4000;
    assert_eq!(*elapsed.borrow(), 8_000_000 + command + 8_000_000 + command);
}

#[test]
fn failing_hal_pins_are_swallowed() {
    let elapsed = Rc::new(RefCell::new(0u64));
    let mut dev = PsxDevice::new(
        OnInput(Data { script: vec![0xFF], bit: 0, dead: true }),
        OnOutput(DeadPin),
        OnOutput(DeadPin),
        OnOutput(DeadPin),
        OnDelay(Clock(elapsed.clone())),
    );
    dev.start_cmd();
    assert_eq!(dev.send_8bit(0xFF), 0x00);
    dev.stop_cmd();
    dev.sleep();
    assert_eq!(*elapsed.borrow(), 6000 + 36_000 + 4000 + 8_000_000);
}
