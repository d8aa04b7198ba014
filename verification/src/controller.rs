//! The controller: connection lifecycle and button edge detection.

use vstd::prelude::*;
use crate::bus::BusOp;
use crate::buttons::{
    lemma_all_held, lemma_any_changed, lemma_any_held, AnalogSticks, Button, NO_BUTTONS,
};
use crate::commands::{
    CResult, Command, ControllerError, DeviceCInfo, DeviceCInfoView, DeviceMode, DeviceState,
    DeviceType, DATA_SIZE, TX_PS2,
};
use crate::device::{DelayService, DigitalInput, DigitalOutput, PsxDevice};
use crate::driver::{Driver, PsxDriver};
use crate::protocol::{
    command_step, initialized, mode_reading, poll_result, queried, sticks_reading, DriverView,
};
use crate::{Gamepad, GamepadView};

verus! {

/// Makes a controller for a device connected to ordinary digital pins.
pub fn create_psx_controller<Dat, Cmd, Att, Clk, D>(
    dat: Dat,
    cmd: Cmd,
    att: Att,
    clk: Clk,
    delay: D,
) -> (controller: Controller<PsxDriver<PsxDevice<Dat, Cmd, Att, Clk, D>>>) where
    Dat: DigitalInput,
    Cmd: DigitalOutput,
    Att: DigitalOutput,
    Clk: DigitalOutput,
    D: DelayService,

    ensures
        controller@ == ControllerView::initial(),
        controller.driver_view().history == Seq::<BusOp>::empty(),
        controller.driver_view().frame == Seq::new(DATA_SIZE as nat, |i: int| 0u8),
{
    let dev = PsxDevice::new(dat, cmd, att, clk, delay);
    let driver = PsxDriver::new(dev);
    Controller::new(driver)
}

/// What a controller knows of its device.
pub struct ControllerView {
    pub ctype: DeviceType,
    pub state: DeviceState,
    pub cmode: DeviceMode,
    pub is_analog_led: bool,
    pub info: DeviceCInfoView,
    pub analog: AnalogSticks,
    pub buttons: u16,
    pub buttons_prev: u16,
    pub is_first_connect: bool,
}

impl ControllerView {
    /// A controller that has not talked to its device yet.
    pub open spec fn initial() -> ControllerView {
        ControllerView {
            ctype: DeviceType::Unknown,
            state: DeviceState::ConnectionError,
            cmode: DeviceMode::Unknown,
            is_analog_led: false,
            info: DeviceCInfoView::zeroed(),
            analog: AnalogSticks::centered(),
            buttons: NO_BUTTONS,
            buttons_prev: NO_BUTTONS,
            is_first_connect: true,
        }
    }

    /// What the controller shows as a gamepad.
    pub open spec fn pad(self) -> GamepadView {
        GamepadView {
            buttons: self.buttons,
            buttons_prev: self.buttons_prev,
            sticks: self.analog,
            mode: self.cmode,
        }
    }

    /// Whether the controller holds no reading: both snapshots are the one
    /// that stands for "no reading", so that the gamepad is not active, and
    /// the sticks are centred.
    pub open spec fn has_no_reading(self) -> bool {
        &&& self.buttons == NO_BUTTONS
        &&& self.buttons_prev == NO_BUTTONS
        &&& self.analog == AnalogSticks::centered()
        &&& self.pad().buttons == NO_BUTTONS
    }

    /// This view with another connection state.
    pub open spec fn with_state(self, state: DeviceState) -> ControllerView {
        ControllerView { state, ..self }
    }

    /// The view after `connect`, if initializing gave `init` and, after a
    /// success, the identity query gave `query` and left the driver
    /// reporting `mode`.
    pub open spec fn after_connect(
        self,
        init: CResult<()>,
        query: CResult<(u8, u8)>,
        mode: DeviceMode,
    ) -> ControllerView {
        if init is Ok && query is Ok {
            ControllerView {
                state: DeviceState::Connected,
                ctype: DeviceType::of_model(query->Ok_0.0),
                cmode: mode,
                is_analog_led: query->Ok_0.1 == 0x01,
                ..self
            }
        } else {
            self.with_state(DeviceState::ConnectionError)
        }
    }

    /// The view after `reconnect`, if initializing gave `init`.
    pub open spec fn after_reconnect(self, init: CResult<()>) -> ControllerView {
        ControllerView { state: DeviceState::of_result(init), is_first_connect: false, ..self }
    }

    /// The view after one poll cycle, if the poll gave `polled` and left the
    /// driver reporting `mode` and `sticks`. A success moves the current
    /// snapshot to the previous one and stores the new readings; a failure
    /// resets both snapshots and the sticks. The connection state is not
    /// touched.
    pub open spec fn after_poll_cycle(
        self,
        polled: CResult<u16>,
        mode: DeviceMode,
        sticks: AnalogSticks,
    ) -> ControllerView {
        match polled {
            Ok(buttons) => ControllerView {
                cmode: mode,
                buttons_prev: self.buttons,
                buttons,
                analog: sticks,
                ..self
            },
            Err(_) => ControllerView {
                buttons_prev: NO_BUTTONS,
                buttons: NO_BUTTONS,
                analog: AnalogSticks::centered(),
                ..self
            },
        }
    }

    /// The view after `poll` on a connected controller: that of the poll
    /// cycle, with the connection state that its outcome gives.
    pub open spec fn after_poll(
        self,
        polled: CResult<u16>,
        mode: DeviceMode,
        sticks: AnalogSticks,
    ) -> ControllerView {
        self.after_poll_cycle(polled, mode, sticks).with_state(DeviceState::of_result(polled))
    }
}

/// The steps that `connect` takes on its driver: it initializes, reaching
/// `mid` with the result `init`, and after a success queries model and mode
/// with the result `query`.
pub open spec fn connect_steps(
    pre: DriverView,
    post: DriverView,
    init: CResult<()>,
    mid: DriverView,
    query: CResult<(u8, u8)>,
) -> bool {
    &&& initialized(pre, mid, init)
    &&& if init is Ok {
        queried(mid, post, query)
    } else {
        post == mid
    }
}

/// After a failed poll the controller holds no reading and is no longer
/// connected.
pub proof fn lemma_failed_poll_resets(
    view: ControllerView,
    error: ControllerError,
    mode: DeviceMode,
    sticks: AnalogSticks,
)
    ensures
        view.after_poll(Err(error), mode, sticks).has_no_reading(),
        view.after_poll(Err(error), mode, sticks).state == DeviceState::ConnectionError,
        view.after_poll_cycle(Err(error), mode, sticks).has_no_reading(),
{
}

/// Manages a controller through its driver.
pub struct Controller<D> {
    pub ctype: DeviceType,
    pub state: DeviceState,
    pub cmode: DeviceMode,
    pub is_analog_led: bool,
    pub info: DeviceCInfo,
    analog: AnalogSticks,
    buttons: u16,
    buttons_prev: u16,
    is_first_connect: bool,
    driver: D,
}

impl<D> View for Controller<D> {
    type V = ControllerView;

    closed spec fn view(&self) -> ControllerView {
        ControllerView {
            ctype: self.ctype,
            state: self.state,
            cmode: self.cmode,
            is_analog_led: self.is_analog_led,
            info: self.info@,
            analog: self.analog,
            buttons: self.buttons,
            buttons_prev: self.buttons_prev,
            is_first_connect: self.is_first_connect,
        }
    }
}

impl<D: Driver> Controller<D> {
    /// The view of the driver.
    pub closed spec fn driver_view(&self) -> DriverView {
        self.driver.view()
    }

    /// Makes a controller that has not talked to its device yet.
    pub fn new(driver: D) -> (controller: Self)
        ensures
            controller@ == ControllerView::initial(),
            controller.driver_view() == driver.view(),
    {
        Controller {
            ctype: DeviceType::Unknown,
            state: DeviceState::ConnectionError,
            cmode: DeviceMode::Unknown,
            is_analog_led: false,
            info: DeviceCInfo::default(),
            analog: AnalogSticks::default(),
            buttons: NO_BUTTONS,
            buttons_prev: NO_BUTTONS,
            is_first_connect: true,
            driver,
        }
    }

    /// The connection state, as the field `state` holds it.
    pub fn state(&self) -> (state: DeviceState)
        ensures
            state == self@.state,
    {
        self.state
    }

    /// The model of the device, as the field `ctype` holds it.
    pub fn ctype(&self) -> (ctype: DeviceType)
        ensures
            ctype == self@.ctype,
    {
        self.ctype
    }

    /// The mode of the device, as the field `cmode` holds it.
    pub fn cmode(&self) -> (cmode: DeviceMode)
        ensures
            cmode == self@.cmode,
    {
        self.cmode
    }

    /// Whether the analog light of the device is on, as the field
    /// `is_analog_led` holds it.
    pub fn is_analog_led(&self) -> (led: bool)
        ensures
            led == self@.is_analog_led,
    {
        self.is_analog_led
    }

    /// The constant tables of the device, as the field `info` holds them.
    pub fn info(&self) -> (info: DeviceCInfo)
        ensures
            info@ == self@.info,
    {
        self.info
    }

    /// Connects to the device and finds out its model and mode.
    pub fn connect(&mut self)
        ensures
            exists|init: CResult<()>, mid: DriverView, query: CResult<(u8, u8)>|
                {
                    &&& #[trigger] connect_steps(
                        old(self).driver_view(),
                        final(self).driver_view(),
                        init,
                        mid,
                        query,
                    )
                    &&& final(self)@ == old(self)@.after_connect(
                        init,
                        query,
                        mode_reading(final(self).driver_view().frame),
                    )
                },
    {
        let init = self.driver.initialize();
        let ghost mid = self.driver_view();
        self.state = DeviceState::from(init);
        match self.state {
            DeviceState::Connected => {
                let query = self.driver.query_model_and_mode();
                match query {
                    Ok((ctype, is_led)) => {
                        self.ctype = DeviceType::from(ctype);
                        self.cmode = self.driver.current_mode();
                        self.is_analog_led = 0x01 == is_led;
                    },
                    Err(_) => {},
                }
                self.state = DeviceState::from(query);
                assert(connect_steps(
                    old(self).driver_view(),
                    self.driver_view(),
                    init,
                    mid,
                    query,
                ));
            },
            _ => {
                let ghost none: CResult<(u8, u8)> = Err(ControllerError::NoResponse);
                assert(connect_steps(old(self).driver_view(), self.driver_view(), init, mid, none));
            },
        }
    }

    /// Initializes the device again, whatever the connection state.
    pub fn reconnect(&mut self)
        ensures
            exists|init: CResult<()>|
                {
                    &&& #[trigger] initialized(
                        old(self).driver_view(),
                        final(self).driver_view(),
                        init,
                    )
                    &&& final(self)@ == old(self)@.after_reconnect(init)
                },
    {
        self.is_first_connect = false;
        let init = self.driver.initialize();
        self.state = DeviceState::from(init);
        assert(initialized(old(self).driver_view(), self.driver_view(), init));
    }

    /// Polls buttons and sticks of a connected device; on a device that is
    /// not connected, tries to connect again in place of polling.
    pub fn poll(&mut self)
        ensures
            old(self)@.state == DeviceState::Connected ==> {
                &&& command_step(
                    old(self).driver_view(),
                    final(self).driver_view(),
                    Command::MainPoll.spec_code(),
                    Seq::empty(),
                    TX_PS2,
                )
                &&& final(self)@ == old(self)@.after_poll(
                    poll_result(final(self).driver_view().frame),
                    mode_reading(final(self).driver_view().frame),
                    sticks_reading(final(self).driver_view().frame),
                )
            },
            old(self)@.state != DeviceState::Connected ==> exists|init: CResult<()>|
                {
                    &&& #[trigger] initialized(
                        old(self).driver_view(),
                        final(self).driver_view(),
                        init,
                    )
                    &&& final(self)@ == old(self)@.after_reconnect(init)
                },
            old(self)@.state == DeviceState::Connected && final(self)@.state
                != DeviceState::Connected ==> final(self)@.has_no_reading(),
    {
        match self.state {
            DeviceState::Connected => {
                let cycle = self._poll();
                self.state = DeviceState::from(cycle);
            },
            _ => self.reconnect(),
        }
    }

    /// One poll cycle.
    pub fn _poll(&mut self) -> (r: CResult<()>)
        ensures
            command_step(
                old(self).driver_view(),
                final(self).driver_view(),
                Command::MainPoll.spec_code(),
                Seq::empty(),
                TX_PS2,
            ),
            final(self)@ == old(self)@.after_poll_cycle(
                poll_result(final(self).driver_view().frame),
                mode_reading(final(self).driver_view().frame),
                sticks_reading(final(self).driver_view().frame),
            ),
            r is Ok <==> poll_result(final(self).driver_view().frame) is Ok,
            r is Err ==> Err::<u16, ControllerError>(r->Err_0) == poll_result(
                final(self).driver_view().frame,
            ),
            r is Err ==> final(self)@.has_no_reading(),
    {
        match self.driver.poll() {
            Ok(buttons) => {
                self.cmode = self.driver.current_mode();
                self.buttons_prev = self.buttons;
                self.buttons = buttons;
                self.analog = self.driver.analog_sticks();
                Ok(())
            },
            Err(e) => {
                self.buttons_prev = NO_BUTTONS;
                self.buttons = NO_BUTTONS;
                self.analog = AnalogSticks::default();
                Err(e)
            },
        }
    }
}

impl<T> Gamepad for Controller<T> {
    open spec fn pad(&self) -> GamepadView {
        self@.pad()
    }

    fn is_analog(&self) -> (analog: bool) {
        match self.cmode {
            DeviceMode::Analog => true,
            _ => false,
        }
    }

    fn is_active(&self) -> (active: bool) {
        self.buttons != NO_BUTTONS
    }

    fn is_changed(&self, btn: Button) -> (changed: bool) {
        proof {
            lemma_any_changed(self.buttons_prev, self.buttons, btn.spec_mask());
        }
        ((self.buttons_prev ^ self.buttons) & btn.mask()) > 0
    }

    fn is_pressed(&self, btn: Button) -> (pressed: bool) {
        proof {
            lemma_any_held(self.buttons, btn.spec_mask());
        }
        (!self.buttons & btn.mask()) > 0
    }

    fn is_pressed_all(&self, mask: u16) -> (pressed: bool) {
        proof {
            lemma_all_held(self.buttons, mask);
        }
        (!self.buttons & mask) == mask
    }

    fn is_pressed_any(&self, mask: u16) -> (pressed: bool) {
        proof {
            lemma_any_held(self.buttons, mask);
        }
        (!self.buttons & mask) > 0
    }

    fn is_down(&self, btn: Button) -> (down: bool) {
        self.is_changed(btn) && self.is_pressed(btn)
    }

    fn is_up(&self, btn: Button) -> (up: bool) {
        proof {
            lemma_any_held(self.buttons_prev, btn.spec_mask());
        }
        self.is_changed(btn) && (!self.buttons_prev & btn.mask()) > 0
    }

    fn pressed_buttons(&self, filter: u16) -> (pressed: u16) {
        !self.buttons & filter
    }

    fn analog_sticks(&self) -> (sticks: AnalogSticks) {
        self.analog
    }

    fn whammy_bar(&self) -> (bar: u8) {
        self.analog.ly
    }
}

} // verus!
