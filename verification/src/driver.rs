//! The protocol driver: commands, their framing, and the operations built
//! from them.

use vstd::prelude::*;
use crate::bus::BusOp;
use crate::buttons::AnalogSticks;
use crate::commands::{
    lemma_nibble_masks, CResult, Command, ControllerError, DeviceCInfo, DeviceMode,
    DATA_HEADER_SIZE, DATA_PAYLOAD_SIZE, DATA_SIZE, TX_PS2, TX_PSX,
};
use crate::device::PsxTrasferData;
use crate::frame::{header_ok, payload_len, DeviceBuffer};
use crate::protocol::{
    attempts, command_ops, command_result, command_step, config_entered, configured,
    enter_config,
    exchanged_len, header_exchanges, info_read, info_trail, informed, initialized, leave_config,
    lemma_attempts_push, mode_reading, model_query, motor_bytes, payload_exchanges, poll_result,
    queried, sticks_reading, table_chunk, table_command, table_read, waited, DriverView,
    INIT_RETRIES,
};

verus! {

/// The protocol for exchanging commands and data with a controller.
///
/// Every operation is bound to the relation of the protocol that describes
/// it, between the view of the driver before and after the call and the
/// result. The view is ghost and never called when the program runs: an
/// implementation outside verified code may give it any body.
pub trait Driver {
    spec fn view(&self) -> DriverView;

    /// Waits for the controller to answer.
    fn initialize(&mut self) -> (r: CResult<()>)
        ensures
            initialized(old(self).view(), final(self).view(), r),
    ;

    /// Polls the state of the controller and returns its button field.
    fn poll(&mut self) -> (r: CResult<u16>)
        ensures
            command_step(
                old(self).view(),
                final(self).view(),
                Command::MainPoll.spec_code(),
                Seq::empty(),
                TX_PS2,
            ),
            r == poll_result(final(self).view().frame),
    ;

    /// Polls the state of the controller and sets the intensity of its two
    /// motors.
    fn poll_vibrate(&mut self, m1: u8, m2: u8) -> (r: CResult<u16>)
        ensures
            command_step(
                old(self).view(),
                final(self).view(),
                Command::MainPoll.spec_code(),
                motor_bytes(m1, m2),
                TX_PSX,
            ),
            r == poll_result(final(self).view().frame),
    ;

    /// Polls the state of the controller and sets the intensity of its two
    /// motors, as `poll_vibrate` does; kept as a name of its own.
    fn poll_vibrate_ex(&mut self, m1: u8, m2: u8) -> (r: CResult<u16>)
        ensures
            command_step(
                old(self).view(),
                final(self).view(),
                Command::MainPoll.spec_code(),
                motor_bytes(m1, m2),
                TX_PSX,
            ),
            r == poll_result(final(self).view().frame),
    ;

    /// Asks the controller for its model byte and its mode byte.
    fn query_model_and_mode(&mut self) -> (r: CResult<(u8, u8)>)
        ensures
            queried(old(self).view(), final(self).view(), r),
    ;

    /// Reads the three constant tables of the controller.
    fn read_device_info(&mut self) -> (r: CResult<DeviceCInfo>)
        ensures
            informed(old(self).view(), final(self).view(), r),
    ;

    /// The stick positions of the most recent response.
    fn analog_sticks(&self) -> (sticks: AnalogSticks)
        ensures
            sticks == sticks_reading(self.view().frame),
    ;

    /// The mode that the most recent response reports.
    fn current_mode(&self) -> (mode: DeviceMode)
        ensures
            mode == mode_reading(self.view().frame),
    ;
}

/// The protocol driver over a transport.
pub struct PsxDriver<Dev> {
    buf: DeviceBuffer,
    dev: Dev,
    cursor: usize,
}

impl<Dev: PsxTrasferData> PsxDriver<Dev> {
    /// Number of bytes of the frame buffer written since the last header
    /// began.
    pub closed spec fn cursor(&self) -> nat {
        self.cursor as nat
    }

    /// Makes a driver with an empty frame buffer over a transport.
    pub fn new(dev: Dev) -> (driver: Self)
        ensures
            driver.view().frame == Seq::new(DATA_SIZE as nat, |i: int| 0u8),
            driver.view().history == dev.history(),
            driver.cursor() == 0,
    {
        let buf = DeviceBuffer::default();
        PsxDriver { buf, dev, cursor: 0 }
    }

    /// Exchanges one byte and stores the answer at the cursor.
    pub fn __tx_rx__(&mut self, byte: u8)
        requires
            old(self).cursor() < DATA_SIZE,
        ensures
            final(self).cursor() == old(self).cursor() + 1,
            final(self).view().frame == old(self).view().frame.update(
                old(self).cursor() as int,
                final(self).view().frame[old(self).cursor() as int],
            ),
            final(self).view().history == old(self).view().history.push(
                BusOp::Exchange {
                    tx: byte,
                    rx: final(self).view().frame[old(self).cursor() as int],
                },
            ),
    {
        let rx: u8 = self.dev.send_8bit(byte);
        self.buf.data[self.cursor] = rx;
        self.cursor += 1;
    }

    /// Sends one payload byte.
    pub fn send_byte(&mut self, byte: u8)
        requires
            old(self).cursor() < DATA_SIZE,
        ensures
            final(self).cursor() == old(self).cursor() + 1,
            final(self).view().frame == old(self).view().frame.update(
                old(self).cursor() as int,
                final(self).view().frame[old(self).cursor() as int],
            ),
            final(self).view().history == old(self).view().history.push(
                BusOp::Exchange {
                    tx: byte,
                    rx: final(self).view().frame[old(self).cursor() as int],
                },
            ),
    {
        self.__tx_rx__(byte);
    }

    /// Sends the same payload byte `repeat` times.
    pub fn send_bytes(&mut self, byte: u8, repeat: u8)
        requires
            old(self).cursor() + repeat <= DATA_SIZE,
        ensures
            final(self).cursor() == old(self).cursor() + repeat,
            final(self).view().frame.len() == old(self).view().frame.len(),
            forall|i: int|
                0 <= i < old(self).cursor() || old(self).cursor() + repeat <= i < DATA_SIZE
                    ==> final(self).view().frame[i] == old(self).view().frame[i],
            final(self).view().history == old(self).view().history + Seq::new(
                repeat as nat,
                |k: int|
                    BusOp::Exchange {
                        tx: byte,
                        rx: final(self).view().frame[old(self).cursor() + k],
                    },
            ),
    {
        let mut sent: u8 = 0;
        while sent < repeat
            invariant
                sent <= repeat,
                old(self).cursor() + repeat <= DATA_SIZE,
                self.cursor() == old(self).cursor() + sent,
                self.view().frame.len() == old(self).view().frame.len(),
                forall|i: int|
                    0 <= i < old(self).cursor() || old(self).cursor() + sent <= i < DATA_SIZE
                        ==> self.view().frame[i] == old(self).view().frame[i],
                self.view().history == old(self).view().history + Seq::new(
                    sent as nat,
                    |k: int|
                        BusOp::Exchange {
                            tx: byte,
                            rx: self.view().frame[old(self).cursor() + k],
                        },
                ),
            decreases repeat - sent,
        {
            self.__tx_rx__(byte);
            sent += 1;
        }
    }

    /// Number of payload bytes that the response announces and that have
    /// not been exchanged yet.
    pub fn rx_data_rest_len(&self) -> (rest: u8)
        requires
            DATA_HEADER_SIZE <= self.cursor() <= DATA_SIZE,
        ensures
            rest == if self.cursor() - DATA_HEADER_SIZE >= payload_len(self.view().frame) {
                0
            } else {
                payload_len(self.view().frame) - (self.cursor() - DATA_HEADER_SIZE)
            },
    {
        let len: u8 = self.buf.rx_data_len();
        let len_sended: u8 = self.cursor as u8 - DATA_HEADER_SIZE;
        if len_sended >= len {
            return 0;
        }
        len - len_sended
    }

    /// Starts a frame: exchanges the three header bytes of a command.
    pub fn send_header(&mut self, ncmd: Command)
        ensures
            final(self).cursor() == DATA_HEADER_SIZE,
            final(self).view().frame.len() == old(self).view().frame.len(),
            forall|i: int|
                DATA_HEADER_SIZE <= i < DATA_SIZE
                    ==> final(self).view().frame[i] == old(self).view().frame[i],
            final(self).view().history == old(self).view().history + header_exchanges(
                ncmd.spec_code(),
                final(self).view().frame,
            ),
    {
        self.cursor = 0;
        self.__tx_rx__(0x01);
        self.__tx_rx__(ncmd.code());
        self.__tx_rx__(0x00);
    }

    /// Sends the payload of a command: the bytes of `lead`, then the filler
    /// for as much of the announced payload as is left.
    pub fn send_payload(&mut self, lead: &[u8], filler: u8)
        requires
            old(self).cursor() == DATA_HEADER_SIZE,
            lead@.len() <= DATA_PAYLOAD_SIZE,
        ensures
            final(self).cursor() == if lead@.len() > payload_len(old(self).view().frame) {
                DATA_HEADER_SIZE + lead@.len()
            } else {
                DATA_HEADER_SIZE + payload_len(old(self).view().frame)
            },
            final(self).view().frame.len() == old(self).view().frame.len(),
            forall|i: int|
                0 <= i < DATA_HEADER_SIZE || final(self).cursor() <= i < DATA_SIZE
                    ==> final(self).view().frame[i] == old(self).view().frame[i],
            final(self).view().history == old(self).view().history + payload_exchanges(
                lead@,
                filler,
                final(self).view().frame,
                (final(self).cursor() - DATA_HEADER_SIZE) as nat,
            ),
    {
        let mut i: usize = 0;
        while i < lead.len()
            invariant
                i <= lead@.len() <= DATA_PAYLOAD_SIZE,
                self.cursor() == DATA_HEADER_SIZE + i,
                self.view().frame.len() == old(self).view().frame.len(),
                forall|j: int|
                    0 <= j < DATA_HEADER_SIZE || DATA_HEADER_SIZE + i <= j < DATA_SIZE
                        ==> self.view().frame[j] == old(self).view().frame[j],
                self.view().history == old(self).view().history + payload_exchanges(
                    lead@,
                    filler,
                    self.view().frame,
                    i as nat,
                ),
            decreases lead@.len() - i,
        {
            self.send_byte(lead[i]);
            i += 1;
        }
        let rest: u8 = self.rx_data_rest_len();
        self.send_bytes(filler, rest);
    }

    /// Sends one command: selects the controller, exchanges the header and,
    /// if the header of the response is valid, the payload; then releases
    /// the controller, whatever the header was.
    pub fn send_command(&mut self, ncmd: Command, lead: &[u8], filler: u8) -> (r: CResult<()>)
        requires
            lead@.len() <= DATA_PAYLOAD_SIZE,
        ensures
            command_step(old(self).view(), final(self).view(), ncmd.spec_code(), lead@, filler),
            r == command_result(final(self).view().frame),
            final(self).cursor() == exchanged_len(final(self).view().frame, lead@.len()),
    {
        self.dev.start_cmd();
        self.send_header(ncmd);
        if self.buf.rx_is_header_success() {
            self.send_payload(lead, filler);
            self.dev.stop_cmd();
            proof {
                assert(self.view().history =~= old(self).view().history + command_ops(
                    ncmd.spec_code(),
                    lead@,
                    filler,
                    self.view().frame,
                ));
            }
            Ok(())
        } else {
            self.dev.stop_cmd();
            proof {
                assert(self.view().history =~= old(self).view().history + command_ops(
                    ncmd.spec_code(),
                    lead@,
                    filler,
                    self.view().frame,
                ));
            }
            Err(ControllerError::BadHeader)
        }
    }

    /// Asks the controller to identify itself.
    pub fn send_query_ds2(&mut self) -> (r: CResult<()>)
        ensures
            command_step(
                old(self).view(),
                final(self).view(),
                Command::QueryDS2AnalogMode.spec_code(),
                Seq::empty(),
                TX_PS2,
            ),
            r == command_result(final(self).view().frame),
            final(self).cursor() <= DATA_SIZE,
    {
        let none: [u8; 0] = [];
        assert(none@ =~= Seq::<u8>::empty());
        self.send_command(Command::QueryDS2AnalogMode, &none, TX_PS2)
    }

    /// Waits for the first valid answer of the controller, through at most
    /// `retry` attempts at the identity query, resting before each.
    pub fn wait_response(&mut self, retry: u8) -> (r: CResult<()>)
        ensures
            waited(old(self).view(), final(self).view(), retry as nat, r),
            retry > 0 ==> final(self).cursor() <= DATA_SIZE,
            retry == 0 ==> final(self).cursor() == old(self).cursor(),
    {
        let mut made: u8 = 0;
        let ghost mut trail: Seq<DriverView> = seq![self.view()];
        while made < retry
            invariant
                made <= retry,
                trail.len() == made + 1,
                attempts(old(self).view(), self.view(), trail),
                made >= 1 ==> !header_ok(self.view().frame),
                made >= 1 ==> self.cursor() <= DATA_SIZE,
                made == 0 ==> self.cursor() == old(self).cursor(),
            decreases retry - made,
        {
            self.dev.sleep();
            let answer = self.send_query_ds2();
            made += 1;
            proof {
                lemma_attempts_push(old(self).view(), trail, self.view());
                trail = trail.push(self.view());
            }
            match answer {
                Ok(_) => {
                    return Ok(());
                },
                _ => {},
            }
        }
        Err(ControllerError::NoResponse)
    }

    /// Runs `f_cfg` in config mode and returns its result.
    ///
    /// Config mode is entered before `f_cfg` runs and left after it, also
    /// when `f_cfg` fails. If the entering command fails, its error is
    /// returned at once: `f_cfg` does not run and no leaving command is
    /// sent. Once `f_cfg` has run, its result is what comes back, also when
    /// the leaving command fails.
    pub fn configure<F, T>(&mut self, f_cfg: F) -> (r: CResult<T>) where
        F: Fn(&mut Self) -> CResult<T>,

        requires
            forall|d: &mut Self|
                config_entered(old(self).view(), d.view()) ==> call_requires(f_cfg, (d,)),
        ensures
            exists|entered: DriverView, done: DriverView, inner: CResult<T>|
                {
                    &&& #[trigger] configured(
                        old(self).view(),
                        final(self).view(),
                        r,
                        entered,
                        done,
                        inner,
                    )
                    &&& header_ok(entered.frame) ==> exists|d: &mut Self|
                        {
                            &&& d.view() == entered.slept()
                            &&& final(d).view() == done
                            &&& call_ensures(f_cfg, (d,), inner)
                        }
                },
            final(self).cursor() <= DATA_SIZE,
    {
        self.dev.sleep();
        let enter: [u8; 1] = [0x01];
        assert(enter@ =~= enter_config());
        match self.send_command(Command::Config, &enter, TX_PSX) {
            Err(e) => {
                proof {
                    let entered = self.view();
                    let none: CResult<T> = Err(e);
                    assert(configured(old(self).view(), self.view(), none, entered, entered, none));
                }
                return Err(e);
            },
            Ok(_) => {},
        }
        let ghost entered = self.view();
        assert(command_step(
            old(self).view().slept(),
            entered,
            Command::Config.spec_code(),
            enter_config(),
            TX_PSX,
        ));
        self.dev.sleep();
        assert(self.view() == entered.slept());

        let result = f_cfg(self);
        let ghost done = self.view();

        self.dev.sleep();
        assert(self.view() == done.slept());
        let leave: [u8; 1] = [0x00];
        assert(leave@ =~= leave_config());
        let _ = self.send_command(Command::Config, &leave, TX_PSX);
        self.dev.sleep();
        assert(configured(old(self).view(), self.view(), result, entered, done, result));
        result
    }

    /// The identity query, as it runs in config mode.
    pub fn query_model(&mut self) -> (r: CResult<(u8, u8)>)
        ensures
            model_query(old(self).view(), final(self).view(), r),
            final(self).cursor() <= DATA_SIZE,
    {
        let none: [u8; 0] = [];
        assert(none@ =~= Seq::<u8>::empty());
        match self.send_command(Command::QueryModelAndMode, &none, TX_PS2) {
            Err(e) => Err(e),
            Ok(_) => Ok((self.buf.rx_data_model(), self.buf.rx_data_mode())),
        }
    }

    /// One read of a constant table: sends the command with the page as its
    /// first payload byte, rests, and returns the five bytes that came.
    pub fn read_table(&mut self, ncmd: Command, page: u8) -> (r: CResult<[u8; 5]>)
        ensures
            match r {
                Ok(chunk) => {
                    &&& table_read(old(self).view(), final(self).view(), ncmd.spec_code(), page)
                    &&& chunk@ == table_chunk(final(self).view().frame)
                },
                Err(e) => {
                    &&& table_command(
                        old(self).view(),
                        final(self).view(),
                        ncmd.spec_code(),
                        page,
                    )
                    &&& !header_ok(final(self).view().frame)
                    &&& e == ControllerError::BadHeader
                },
            },
            final(self).cursor() <= DATA_SIZE,
    {
        let lead: [u8; 1] = [page];
        assert(lead@ =~= seq![page]);
        match self.send_command(ncmd, &lead, TX_PS2) {
            Err(e) => Err(e),
            Ok(_) => {
                let ghost mid = self.view();
                assert(table_command(old(self).view(), mid, ncmd.spec_code(), page));
                self.dev.sleep();
                Ok(self.buf.rx_table_chunk())
            },
        }
    }

    /// The reading of the constant tables, as it runs in config mode: two
    /// reads for the first table, one for the second, two for the third.
    /// The first read that fails ends the reading.
    pub fn read_tables(&mut self) -> (r: CResult<DeviceCInfo>)
        ensures
            info_read(old(self).view(), final(self).view(), r),
            final(self).cursor() <= DATA_SIZE,
    {
        let ghost mut trail: Seq<DriverView> = seq![self.view()];
        let a1 = match self.read_table(Command::GetConst1, 0x00) {
            Ok(chunk) => chunk,
            Err(e) => {
                proof {
                    let failed: CResult<DeviceCInfo> = Err(e);
                    assert(info_trail(old(self).view(), self.view(), failed, trail));
                }
                return Err(e);
            },
        };
        proof {
            trail = trail.push(self.view());
        }
        let a2 = match self.read_table(Command::GetConst1, 0x01) {
            Ok(chunk) => chunk,
            Err(e) => {
                proof {
                    let failed: CResult<DeviceCInfo> = Err(e);
                    assert(info_trail(old(self).view(), self.view(), failed, trail));
                }
                return Err(e);
            },
        };
        proof {
            trail = trail.push(self.view());
        }
        let b1 = match self.read_table(Command::GetConst2, 0x00) {
            Ok(chunk) => chunk,
            Err(e) => {
                proof {
                    let failed: CResult<DeviceCInfo> = Err(e);
                    assert(info_trail(old(self).view(), self.view(), failed, trail));
                }
                return Err(e);
            },
        };
        proof {
            trail = trail.push(self.view());
        }
        let c1 = match self.read_table(Command::GetConst3, 0x00) {
            Ok(chunk) => chunk,
            Err(e) => {
                proof {
                    let failed: CResult<DeviceCInfo> = Err(e);
                    assert(info_trail(old(self).view(), self.view(), failed, trail));
                }
                return Err(e);
            },
        };
        proof {
            trail = trail.push(self.view());
        }
        let c2 = match self.read_table(Command::GetConst3, 0x01) {
            Ok(chunk) => chunk,
            Err(e) => {
                proof {
                    let failed: CResult<DeviceCInfo> = Err(e);
                    assert(info_trail(old(self).view(), self.view(), failed, trail));
                }
                return Err(e);
            },
        };
        proof {
            trail = trail.push(self.view());
        }
        let data = DeviceCInfo {
            unknown2: b1,
            unknown1: [a1[0], a1[1], a1[2], a1[3], a1[4], a2[0], a2[1], a2[2], a2[3], a2[4]],
            unknown3: [c1[0], c1[1], c1[2], c1[3], c1[4], c2[0], c2[1], c2[2], c2[3], c2[4]],
        };
        proof {
            assert(data.unknown1@ =~= a1@ + a2@);
            assert(data.unknown3@ =~= c1@ + c2@);
            let done: CResult<DeviceCInfo> = Ok(data);
            assert(info_trail(old(self).view(), self.view(), done, trail));
        }
        Ok(data)
    }
}

impl<Dev: PsxTrasferData> Driver for PsxDriver<Dev> {
    closed spec fn view(&self) -> DriverView {
        DriverView { frame: self.buf@, history: self.dev.history() }
    }

    fn initialize(&mut self) -> (r: CResult<()>)
        ensures
            final(self).cursor() <= DATA_SIZE,
    {
        match self.wait_response(INIT_RETRIES) {
            Err(e) => {
                return Err(e);
            },
            Ok(_) => {},
        }
        self.dev.sleep();
        Ok(())
    }

    fn poll(&mut self) -> (r: CResult<u16>)
        ensures
            final(self).cursor() <= DATA_SIZE,
    {
        let none: [u8; 0] = [];
        assert(none@ =~= Seq::<u8>::empty());
        match self.send_command(Command::MainPoll, &none, TX_PS2) {
            Err(e) => Err(e),
            Ok(_) => Ok(self.buf.rx_buttons()),
        }
    }

    fn poll_vibrate(&mut self, m1: u8, m2: u8) -> (r: CResult<u16>)
        ensures
            final(self).cursor() <= DATA_SIZE,
    {
        let motors: [u8; 2] = [
            DeviceBuffer::tx_normolize_motor(m1),
            DeviceBuffer::tx_normolize_motor(m2),
        ];
        match self.send_command(Command::MainPoll, &motors, TX_PSX) {
            Err(e) => Err(e),
            Ok(_) => Ok(self.buf.rx_buttons()),
        }
    }

    fn poll_vibrate_ex(&mut self, m1: u8, m2: u8) -> (r: CResult<u16>)
        ensures
            final(self).cursor() <= DATA_SIZE,
    {
        self.poll_vibrate(m1, m2)
    }

    fn query_model_and_mode(&mut self) -> (r: CResult<(u8, u8)>)
        ensures
            final(self).cursor() <= DATA_SIZE,
    {
        let body = |me: &mut Self| -> (inner: CResult<(u8, u8)>)
            ensures
                model_query(old(me).view(), final(me).view(), inner),
            {
                me.query_model()
            };
        self.configure(body)
    }

    fn read_device_info(&mut self) -> (r: CResult<DeviceCInfo>)
        ensures
            final(self).cursor() <= DATA_SIZE,
    {
        let body = |me: &mut Self| -> (inner: CResult<DeviceCInfo>)
            ensures
                info_read(old(me).view(), final(me).view(), inner),
            {
                me.read_tables()
            };
        self.configure(body)
    }

    fn analog_sticks(&self) -> (sticks: AnalogSticks) {
        if self.buf.rx_is_analog_mode() {
            self.buf.rx_analog_sticks()
        } else {
            AnalogSticks::default()
        }
    }

    fn current_mode(&self) -> (mode: DeviceMode) {
        proof {
            lemma_nibble_masks(self.buf@[1]);
        }
        let id: u8 = self.buf.rx_data_id();
        proof {
            lemma_nibble_masks(id);
        }
        DeviceMode::from(id)
    }
}

} // verus!
