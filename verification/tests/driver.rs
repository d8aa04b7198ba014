use std::cell::RefCell;
use std::rc::Rc;

use ps2_gamepad::bus::BusOp;
use ps2_gamepad::buttons::AnalogSticks;
use ps2_gamepad::commands::{Command, ControllerError, DeviceMode, TX_PS2, TX_PSX};
use ps2_gamepad::device::PsxTrasferData;
use ps2_gamepad::driver::{Driver, PsxDriver};
use ps2_gamepad::protocol::INIT_RETRIES;

#[derive(Clone, Copy, Debug, PartialEq, Eq)]
enum Op {
    Select,
    Deselect,
    Sleep,
    Tx(u8),
}

/// A controller that answers each command with the next frame of a script.
/// A frame that is used up answers `0x00`; so does the controller once the
/// script is used up.
struct Scripted {
    frames: Vec<Vec<u8>>,
    frame: usize,
    byte: usize,
    ops: Rc<RefCell<Vec<Op>>>,
}

impl PsxTrasferData for Scripted {
    fn history(&self) -> vstd::seq::Seq<BusOp> {
        unreachable!()
    }

    fn start_cmd(&mut self) {
        self.byte = 0;
        self.ops.borrow_mut().push(Op::Select);
    }

    fn stop_cmd(&mut self) {
        self.frame += 1;
        self.ops.borrow_mut().push(Op::Deselect);
    }

    fn send_8bit(&mut self, byte: u8) -> u8 {
        self.ops.borrow_mut().push(Op::Tx(byte));
        let answer = match self.frames.get(self.frame) {
            Some(f) => f.get(self.byte).copied().unwrap_or(0),
            None => 0,
        };
        self.byte += 1;
        answer
    }

    fn sleep(&mut self) {
        self.ops.borrow_mut().push(Op::Sleep);
    }
}

fn driver(frames: &[&[u8]]) -> (PsxDriver<Scripted>, Rc<RefCell<Vec<Op>>>) {
    let ops = Rc::new(RefCell::new(Vec::new()));
    let dev = Scripted {
        frames: frames.iter().map(|f| f.to_vec()).collect(),
        frame: 0,
        byte: 0,
        ops: ops.clone(),
    };
    (PsxDriver::new(dev), ops)
}

fn command(bytes: &[u8]) -> Vec<Op> {
    let mut v = vec![Op::Select];
    for b in bytes {
        v.push(Op::Tx(*b));
    }
    v.push(Op::Deselect);
    v
}

fn concat(parts: &[Vec<Op>]) -> Vec<Op> {
    let mut v = Vec::new();
    for p in parts {
        v.extend(p.iter().copied());
    }
    v
}

const DIGITAL: [u8; 5] = [0xFF, 0x41, 0x5A, 0xFF, 0xFF];
const CONFIG: [u8; 9] = [0xFF, 0xF3, 0x5A, 0x00, 0x00, 0x00, 0x00, 0x00, 0x00];
const BAD: [u8; 3] = [0x00, 0x00, 0x00];

#[test]
fn send_command_exchanges_header_and_announced_payload() {
    let (mut d, ops) = driver(&[&DIGITAL]);
    assert_eq!(d.send_command(Command::MainPoll, &[], TX_PS2), Ok(()));
    assert_eq!(*ops.borrow(), command(&[0x01, 0x42, 0x00, 0x5A, 0x5A]));
}

#[test]
fn send_command_stops_after_an_invalid_header() {
    let (mut d, ops) = driver(&[&BAD]);
    assert_eq!(
        d.send_command(Command::MainPoll, &[], TX_PS2),
        Err(ControllerError::BadHeader)
    );
    assert_eq!(*ops.borrow(), command(&[0x01, 0x42, 0x00]));
}

#[test]
fn send_command_rejects_each_kind_of_invalid_header() {
    for bad in [[0xFEu8, 0x41, 0x5A], [0xFF, 0x42, 0x5A], [0xFF, 0x51, 0x5A], [0xFF, 0x00, 0x00]] {
        let (mut d, ops) = driver(&[&bad]);
        assert_eq!(
            d.send_command(Command::QueryDS2AnalogMode, &[0x01, 0x02], TX_PSX),
            Err(ControllerError::BadHeader)
        );
        assert_eq!(*ops.borrow(), command(&[0x01, 0x41, 0x00]));
    }
}

#[test]
fn send_command_pads_with_the_filler() {
    let (mut d, ops) = driver(&[&[0xFF, 0x73, 0x5A]]);
    assert_eq!(d.send_command(Command::Config, &[0x01], TX_PSX), Ok(()));
    assert_eq!(
        *ops.borrow(),
        command(&[0x01, 0x43, 0x00, 0x01, 0x00, 0x00, 0x00, 0x00, 0x00])
    );
}

#[test]
fn send_command_exchanges_the_longest_payload() {
    let (mut d, ops) = driver(&[&[0xFF, 0x79, 0x5A]]);
    assert_eq!(d.send_command(Command::MainPoll, &[], TX_PS2), Ok(()));
    let mut bytes = vec![0x01, 0x42, 0x00];
    bytes.extend([0x5A; 18]);
    assert_eq!(bytes.len(), 21);
    assert_eq!(*ops.borrow(), command(&bytes));
}

#[test]
fn send_command_sends_all_supplied_bytes_even_past_the_announced_payload() {
    let (mut d, ops) = driver(&[&DIGITAL]);
    assert_eq!(d.send_command(Command::MainPoll, &[7, 8, 9], TX_PS2), Ok(()));
    assert_eq!(*ops.borrow(), command(&[0x01, 0x42, 0x00, 7, 8, 9]));
}

#[test]
fn send_command_takes_a_full_payload_from_the_caller() {
    let lead: Vec<u8> = (1..=18).collect();
    let (mut d, ops) = driver(&[&DIGITAL]);
    assert_eq!(d.send_command(Command::MainPoll, &lead, TX_PS2), Ok(()));
    let mut bytes = vec![0x01, 0x42, 0x00];
    bytes.extend(lead.iter());
    assert_eq!(*ops.borrow(), command(&bytes));
}

#[test]
fn send_query_ds2_is_the_identity_query() {
    let (mut d, ops) = driver(&[&[0xFF, 0x73, 0x5A]]);
    assert_eq!(d.send_query_ds2(), Ok(()));
    assert_eq!(
        *ops.borrow(),
        command(&[0x01, 0x41, 0x00, 0x5A, 0x5A, 0x5A, 0x5A, 0x5A, 0x5A])
    );
}

#[test]
fn header_and_bytes_can_be_sent_one_by_one() {
    let (mut d, ops) = driver(&[&[0xFF, 0x73, 0x5A, 1, 2, 3, 4, 5, 6]]);
    d.send_header(Command::MainPoll);
    assert_eq!(d.rx_data_rest_len(), 6);
    d.send_byte(0x11);
    assert_eq!(d.rx_data_rest_len(), 5);
    d.send_bytes(0x22, 2);
    assert_eq!(d.rx_data_rest_len(), 3);
    d.__tx_rx__(0x33);
    assert_eq!(d.rx_data_rest_len(), 2);
    d.send_bytes(0x44, 0);
    d.send_bytes(0x44, 2);
    assert_eq!(d.rx_data_rest_len(), 0);
    d.send_byte(0x55);
    assert_eq!(d.rx_data_rest_len(), 0);
    assert_eq!(
        *ops.borrow(),
        vec![
            Op::Tx(0x01),
            Op::Tx(0x42),
            Op::Tx(0x00),
            Op::Tx(0x11),
            Op::Tx(0x22),
            Op::Tx(0x22),
            Op::Tx(0x33),
            Op::Tx(0x44),
            Op::Tx(0x44),
            Op::Tx(0x55),
        ]
    );
}

#[test]
fn send_payload_follows_the_header() {
    let (mut d, ops) = driver(&[&[0xFF, 0x41, 0x5A]]);
    d.send_header(Command::Config);
    d.send_payload(&[0x01], TX_PSX);
    assert_eq!(
        *ops.borrow(),
        vec![Op::Tx(0x01), Op::Tx(0x43), Op::Tx(0x00), Op::Tx(0x01), Op::Tx(0x00)]
    );
}

#[test]
fn poll_returns_the_button_field() {
    let (mut d, ops) = driver(&[&[0xFF, 0x41, 0x5A, 0x34, 0x12]]);
    assert_eq!(d.poll(), Ok(0x1234));
    assert_eq!(*ops.borrow(), command(&[0x01, 0x42, 0x00, 0x5A, 0x5A]));
}

#[test]
fn poll_fails_on_an_invalid_header() {
    let (mut d, ops) = driver(&[&BAD]);
    assert_eq!(d.poll(), Err(ControllerError::BadHeader));
    assert_eq!(*ops.borrow(), command(&[0x01, 0x42, 0x00]));
}

#[test]
fn digital_response_decodes_to_digital_mode_and_low_byte_pressed() {
    let (mut d, _ops) = driver(&[&[0xFF, 0x41, 0x5A, 0x00, 0xFF]]);
    let field = d.poll().unwrap();
    assert_eq!(field, 0xFF00);
    assert_eq!(!field, 0x00FF);
    assert_eq!(d.current_mode(), DeviceMode::Digital);
    assert_eq!(d.analog_sticks(), AnalogSticks::new(128, 128, 128, 128));
}

#[test]
fn poll_vibrate_sends_the_normalized_motor_bytes() {
    let (mut d, ops) = driver(&[&[0xFF, 0x73, 0x5A, 0xEF, 0xFF, 1, 2, 3, 4]]);
    assert_eq!(d.poll_vibrate(0, 255), Ok(0xFFEF));
    assert_eq!(
        *ops.borrow(),
        command(&[0x01, 0x42, 0x00, 0x00, 0xFF, 0x00, 0x00, 0x00, 0x00])
    );
}

#[test]
fn poll_vibrate_scales_small_intensities_up() {
    let (mut d, ops) = driver(&[&DIGITAL]);
    assert_eq!(d.poll_vibrate(1, 128), Ok(0xFFFF));
    assert_eq!(*ops.borrow(), command(&[0x01, 0x42, 0x00, 64, 159]));
}

#[test]
fn poll_vibrate_ex_does_what_poll_vibrate_does() {
    let (mut a, ops_a) = driver(&[&[0xFF, 0x73, 0x5A, 0x12, 0x34]]);
    let (mut b, ops_b) = driver(&[&[0xFF, 0x73, 0x5A, 0x12, 0x34]]);
    assert_eq!(a.poll_vibrate(40, 200), b.poll_vibrate_ex(40, 200));
    assert_eq!(*ops_a.borrow(), *ops_b.borrow());
    assert_eq!(ops_a.borrow()[4], Op::Tx(93));
    assert_eq!(ops_a.borrow()[5], Op::Tx(213));
}

#[test]
fn poll_vibrate_fails_on_an_invalid_header() {
    let (mut d, ops) = driver(&[&BAD]);
    assert_eq!(d.poll_vibrate(10, 10), Err(ControllerError::BadHeader));
    assert_eq!(*ops.borrow(), command(&[0x01, 0x42, 0x00]));
    let (mut d, _) = driver(&[&BAD]);
    assert_eq!(d.poll_vibrate_ex(10, 10), Err(ControllerError::BadHeader));
}

#[test]
fn analog_sticks_are_read_in_analog_mode_only() {
    let (mut d, _) = driver(&[&[0xFF, 0x73, 0x5A, 0xFF, 0xFF, 10, 20, 30, 40]]);
    assert_eq!(d.analog_sticks(), AnalogSticks::new(128, 128, 128, 128));
    d.poll().unwrap();
    assert_eq!(d.analog_sticks(), AnalogSticks::new(30, 40, 10, 20));
    assert_eq!(d.current_mode(), DeviceMode::Analog);
}

#[test]
fn analog_sticks_are_centred_in_config_mode() {
    let (mut d, _) = driver(&[&[0xFF, 0xF3, 0x5A, 0xFF, 0xFF, 10, 20, 30, 40]]);
    d.poll().unwrap();
    assert_eq!(d.analog_sticks(), AnalogSticks::default());
    assert_eq!(d.current_mode(), DeviceMode::DualShock2Native);
}

#[test]
fn current_mode_is_unknown_before_any_response() {
    let (d, _) = driver(&[]);
    assert_eq!(d.current_mode(), DeviceMode::Unknown);
}

#[test]
fn wait_response_stops_at_the_first_valid_header() {
    let (mut d, ops) = driver(&[&BAD, &BAD, &DIGITAL, &DIGITAL]);
    assert_eq!(d.wait_response(10), Ok(()));
    let q_bad = command(&[0x01, 0x41, 0x00]);
    let q_ok = command(&[0x01, 0x41, 0x00, 0x5A, 0x5A]);
    assert_eq!(
        *ops.borrow(),
        concat(&[
            vec![Op::Sleep],
            q_bad.clone(),
            vec![Op::Sleep],
            q_bad,
            vec![Op::Sleep],
            q_ok
        ])
    );
}

#[test]
fn wait_response_gives_up_when_the_budget_is_spent() {
    let (mut d, ops) = driver(&[&BAD, &BAD, &BAD, &DIGITAL]);
    assert_eq!(d.wait_response(3), Err(ControllerError::NoResponse));
    assert_eq!(ops.borrow().iter().filter(|o| **o == Op::Select).count(), 3);
    assert_eq!(ops.borrow().iter().filter(|o| **o == Op::Sleep).count(), 3);
}

#[test]
fn wait_response_without_budget_does_nothing() {
    let (mut d, ops) = driver(&[&DIGITAL]);
    assert_eq!(d.wait_response(0), Err(ControllerError::NoResponse));
    assert!(ops.borrow().is_empty());
}

#[test]
fn initialize_succeeds_on_the_first_attempt() {
    let (mut d, ops) = driver(&[&DIGITAL]);
    assert_eq!(d.initialize(), Ok(()));
    assert_eq!(
        *ops.borrow(),
        concat(&[vec![Op::Sleep], command(&[0x01, 0x41, 0x00, 0x5A, 0x5A]), vec![Op::Sleep]])
    );
}

#[test]
fn initialize_makes_no_attempt_after_a_success() {
    for k in 1..=10usize {
        let mut frames: Vec<&[u8]> = Vec::new();
        for _ in 1..k {
            frames.push(&BAD);
        }
        frames.push(&DIGITAL);
        let (mut d, ops) = driver(&frames);
        assert_eq!(d.initialize(), Ok(()));
        assert_eq!(ops.borrow().iter().filter(|o| **o == Op::Select).count(), k);
        assert_eq!(ops.borrow().iter().filter(|o| **o == Op::Sleep).count(), k + 1);
        assert_eq!(*ops.borrow().last().unwrap(), Op::Sleep);
    }
}

#[test]
fn initialize_gives_up_after_ten_attempts() {
    let frames: Vec<&[u8]> = vec![&BAD; 10];
    let mut with_late_answer = frames.clone();
    with_late_answer.push(&DIGITAL);
    let (mut d, ops) = driver(&with_late_answer);
    assert_eq!(INIT_RETRIES, 10);
    assert_eq!(d.initialize(), Err(ControllerError::NoResponse));
    assert_eq!(ops.borrow().iter().filter(|o| **o == Op::Select).count(), 10);
    assert_eq!(ops.borrow().iter().filter(|o| **o == Op::Sleep).count(), 10);
    assert_eq!(*ops.borrow().last().unwrap(), Op::Deselect);
    let q_bad = command(&[0x01, 0x41, 0x00]);
    let mut expected = Vec::new();
    for _ in 0..10 {
        expected.push(Op::Sleep);
        expected.extend(q_bad.iter().copied());
    }
    assert_eq!(*ops.borrow(), expected);
}

#[test]
fn initialize_succeeds_on_the_tenth_attempt() {
    let mut frames: Vec<&[u8]> = vec![&BAD; 9];
    frames.push(&DIGITAL);
    let (mut d, _) = driver(&frames);
    assert_eq!(d.initialize(), Ok(()));
}

fn enter() -> Vec<Op> {
    command(&[0x01, 0x43, 0x00, 0x01, 0x00, 0x00, 0x00, 0x00, 0x00])
}

fn leave() -> Vec<Op> {
    command(&[0x01, 0x43, 0x00, 0x00, 0x00, 0x00, 0x00, 0x00, 0x00])
}

#[test]
fn configure_wraps_the_body_in_config_mode() {
    let (mut d, ops) = driver(&[&CONFIG, &CONFIG]);
    let seen = ops.clone();
    let r: Result<usize, ControllerError> = d.configure(|_me| Ok(seen.borrow().len()));
    assert_eq!(r, Ok(1 + enter().len() + 1));
    assert_eq!(
        *ops.borrow(),
        concat(&[vec![Op::Sleep], enter(), vec![Op::Sleep, Op::Sleep], leave(), vec![Op::Sleep]])
    );
}

#[test]
fn configure_returns_the_error_of_a_failing_body_and_still_leaves_config_mode() {
    let (mut d, ops) = driver(&[&CONFIG, &CONFIG]);
    let r: Result<u8, ControllerError> = d.configure(|_me| Err(ControllerError::LogicError));
    assert_eq!(r, Err(ControllerError::LogicError));
    assert_eq!(
        *ops.borrow(),
        concat(&[vec![Op::Sleep], enter(), vec![Op::Sleep, Op::Sleep], leave(), vec![Op::Sleep]])
    );
}

#[test]
fn configure_returns_the_error_of_a_failing_command_in_the_body() {
    let (mut d, ops) = driver(&[&CONFIG, &BAD, &CONFIG]);
    let r: Result<(), ControllerError> =
        d.configure(|me| me.send_command(Command::MapMotors, &[], TX_PS2));
    assert_eq!(r, Err(ControllerError::BadHeader));
    assert_eq!(
        *ops.borrow(),
        concat(&[
            vec![Op::Sleep],
            enter(),
            vec![Op::Sleep],
            command(&[0x01, 0x4D, 0x00]),
            vec![Op::Sleep],
            leave(),
            vec![Op::Sleep]
        ])
    );
}

#[test]
fn configure_does_not_run_the_body_when_entering_fails() {
    let (mut d, ops) = driver(&[&BAD, &CONFIG]);
    let ran = Rc::new(RefCell::new(false));
    let flag = ran.clone();
    let r: Result<u8, ControllerError> = d.configure(|_me| {
        *flag.borrow_mut() = true;
        Ok(1)
    });
    assert_eq!(r, Err(ControllerError::BadHeader));
    assert!(!*ran.borrow());
    assert_eq!(*ops.borrow(), concat(&[vec![Op::Sleep], command(&[0x01, 0x43, 0x00])]));
}

#[test]
fn configure_returns_the_result_of_the_body_when_leaving_fails() {
    let (mut d, ops) = driver(&[&CONFIG, &BAD]);
    let r: Result<u8, ControllerError> = d.configure(|_me| Ok(5));
    assert_eq!(r, Ok(5));
    assert_eq!(
        *ops.borrow(),
        concat(&[
            vec![Op::Sleep],
            enter(),
            vec![Op::Sleep, Op::Sleep],
            command(&[0x01, 0x43, 0x00]),
            vec![Op::Sleep]
        ])
    );
}

#[test]
fn configure_returns_the_error_of_a_failing_body_when_leaving_fails_too() {
    let (mut d, ops) = driver(&[&CONFIG, &BAD]);
    let r: Result<u8, ControllerError> = d.configure(|_me| Err(ControllerError::LogicError));
    assert_eq!(r, Err(ControllerError::LogicError));
    assert_eq!(
        *ops.borrow(),
        concat(&[
            vec![Op::Sleep],
            enter(),
            vec![Op::Sleep, Op::Sleep],
            command(&[0x01, 0x43, 0x00]),
            vec![Op::Sleep]
        ])
    );
}

#[test]
fn configure_returns_every_error_of_the_body_as_it_is() {
    let errors =
        [ControllerError::NoResponse, ControllerError::BadHeader, ControllerError::LogicError];
    for e in errors {
        for leave in [&CONFIG[..], &BAD[..]] {
            let (mut d, _) = driver(&[&CONFIG, leave]);
            let r: Result<u8, ControllerError> = d.configure(|_me| Err(e));
            assert_eq!(r, Err(e));
        }
    }
}

#[test]
fn query_model_reads_payload_bytes_zero_and_two() {
    let (mut d, ops) = driver(&[&[0xFF, 0xF3, 0x5A, 0x03, 0x02, 0x01, 0x02, 0x01, 0x00]]);
    assert_eq!(d.query_model(), Ok((0x03, 0x01)));
    assert_eq!(
        *ops.borrow(),
        command(&[0x01, 0x45, 0x00, 0x5A, 0x5A, 0x5A, 0x5A, 0x5A, 0x5A])
    );
}

#[test]
fn query_model_and_mode_runs_in_config_mode() {
    let answer = [0xFF, 0xF3, 0x5A, 0x01, 0x02, 0x00, 0x02, 0x01, 0x00];
    let (mut d, ops) = driver(&[&CONFIG, &answer, &CONFIG]);
    assert_eq!(d.query_model_and_mode(), Ok((0x01, 0x00)));
    assert_eq!(
        *ops.borrow(),
        concat(&[
            vec![Op::Sleep],
            enter(),
            vec![Op::Sleep],
            command(&[0x01, 0x45, 0x00, 0x5A, 0x5A, 0x5A, 0x5A, 0x5A, 0x5A]),
            vec![Op::Sleep],
            leave(),
            vec![Op::Sleep]
        ])
    );
}

#[test]
fn query_model_and_mode_keeps_its_answer_when_leaving_fails() {
    let answer = [0xFF, 0xF3, 0x5A, 0x03, 0x02, 0x01, 0x02, 0x01, 0x00];
    let (mut d, ops) = driver(&[&CONFIG, &answer, &BAD]);
    assert_eq!(d.query_model_and_mode(), Ok((0x03, 0x01)));
    assert_eq!(ops.borrow().iter().filter(|o| **o == Op::Select).count(), 3);
    assert_eq!(*ops.borrow().last().unwrap(), Op::Sleep);
}

#[test]
fn query_model_and_mode_fails_when_entering_config_mode_fails() {
    let (mut d, ops) = driver(&[&BAD]);
    assert_eq!(d.query_model_and_mode(), Err(ControllerError::BadHeader));
    assert_eq!(*ops.borrow(), concat(&[vec![Op::Sleep], command(&[0x01, 0x43, 0x00])]));
}

#[test]
fn query_model_and_mode_fails_when_the_query_fails() {
    let (mut d, ops) = driver(&[&CONFIG, &BAD, &CONFIG]);
    assert_eq!(d.query_model_and_mode(), Err(ControllerError::BadHeader));
    assert_eq!(ops.borrow().iter().filter(|o| **o == Op::Select).count(), 3);
}

fn table(tag: u8) -> [u8; 9] {
    [0xFF, 0xF3, 0x5A, 0x00, tag, tag + 1, tag + 2, tag + 3, tag + 4]
}

fn table_command(code: u8, page: u8) -> Vec<Op> {
    command(&[0x01, code, 0x00, page, 0x5A, 0x5A, 0x5A, 0x5A, 0x5A])
}

#[test]
fn read_table_returns_five_bytes() {
    let (mut d, ops) = driver(&[&table(10)]);
    assert_eq!(d.read_table(Command::GetConst2, 0x00), Ok([10, 11, 12, 13, 14]));
    assert_eq!(*ops.borrow(), concat(&[table_command(0x47, 0x00), vec![Op::Sleep]]));
}

#[test]
fn read_table_does_not_rest_after_a_failure() {
    let (mut d, ops) = driver(&[&BAD]);
    assert_eq!(d.read_table(Command::GetConst1, 0x01), Err(ControllerError::BadHeader));
    assert_eq!(*ops.borrow(), command(&[0x01, 0x46, 0x00]));
}

#[test]
fn read_tables_assembles_the_three_tables() {
    let (mut d, ops) = driver(&[&table(10), &table(20), &table(30), &table(40), &table(50)]);
    let info = d.read_tables().unwrap();
    assert_eq!(info.unknown1, [10, 11, 12, 13, 14, 20, 21, 22, 23, 24]);
    assert_eq!(info.unknown2, [30, 31, 32, 33, 34]);
    assert_eq!(info.unknown3, [40, 41, 42, 43, 44, 50, 51, 52, 53, 54]);
    assert_eq!(
        *ops.borrow(),
        concat(&[
            table_command(0x46, 0x00),
            vec![Op::Sleep],
            table_command(0x46, 0x01),
            vec![Op::Sleep],
            table_command(0x47, 0x00),
            vec![Op::Sleep],
            table_command(0x4C, 0x00),
            vec![Op::Sleep],
            table_command(0x4C, 0x01),
            vec![Op::Sleep]
        ])
    );
}

#[test]
fn read_tables_ends_at_the_first_failing_read() {
    for failing in 0..5usize {
        let good = table(1);
        let mut frames: Vec<&[u8]> = Vec::new();
        for _ in 0..failing {
            frames.push(&good);
        }
        frames.push(&BAD);
        frames.push(&good);
        let (mut d, ops) = driver(&frames);
        assert!(matches!(d.read_tables(), Err(ControllerError::BadHeader)));
        assert_eq!(ops.borrow().iter().filter(|o| **o == Op::Select).count(), failing + 1);
        assert_eq!(ops.borrow().iter().filter(|o| **o == Op::Sleep).count(), failing);
    }
}

#[test]
fn read_device_info_runs_in_config_mode() {
    let (mut d, ops) =
        driver(&[&CONFIG, &table(10), &table(20), &table(30), &table(40), &table(50), &CONFIG]);
    let info = d.read_device_info().unwrap();
    assert_eq!(info.unknown1, [10, 11, 12, 13, 14, 20, 21, 22, 23, 24]);
    assert_eq!(info.unknown2, [30, 31, 32, 33, 34]);
    assert_eq!(info.unknown3, [40, 41, 42, 43, 44, 50, 51, 52, 53, 54]);
    let trace = ops.borrow().clone();
    assert_eq!(trace[..12].to_vec(), concat(&[vec![Op::Sleep], enter()]));
    let tail = concat(&[vec![Op::Sleep], leave(), vec![Op::Sleep]]);
    assert_eq!(trace[trace.len() - 13..].to_vec(), tail);
    assert_eq!(trace.iter().filter(|o| **o == Op::Select).count(), 7);
}

#[test]
fn read_device_info_leaves_config_mode_after_a_failing_read() {
    let (mut d, ops) = driver(&[&CONFIG, &table(10), &BAD, &CONFIG]);
    assert!(matches!(d.read_device_info(), Err(ControllerError::BadHeader)));
    let trace = ops.borrow().clone();
    let tail = concat(&[vec![Op::Sleep], leave(), vec![Op::Sleep]]);
    assert_eq!(trace[trace.len() - 13..].to_vec(), tail);
    assert_eq!(trace.iter().filter(|o| **o == Op::Select).count(), 4);
}

#[test]
fn a_short_response_leaves_older_bytes_behind_it() {
    let (mut d, _) = driver(&[&[0xFF, 0x73, 0x5A, 1, 2, 3, 4, 5, 6], &[0xFF, 0x73, 0x5A, 9, 9]]);
    d.poll().unwrap();
    assert_eq!(d.analog_sticks(), AnalogSticks::new(5, 6, 3, 4));
    d.poll().unwrap();
    assert_eq!(d.analog_sticks(), AnalogSticks::new(0, 0, 0, 0));
    let (mut d, _) = driver(&[&[0xFF, 0x73, 0x5A, 1, 2, 3, 4, 5, 6], &[0xFF, 0x71, 0x5A, 9, 9]]);
    d.poll().unwrap();
    d.poll().unwrap();
    assert_eq!(d.analog_sticks(), AnalogSticks::new(5, 6, 3, 4));
}
