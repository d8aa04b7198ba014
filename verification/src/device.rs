//! The transport: four lines and a delay service, driven bit by bit.

use vstd::prelude::*;
use crate::bus::{
    bit_of, bit_wire, bits_wire, deselect_wire, exchange_wire, lemma_after_concat,
    lemma_after_push, lemma_bit_records, lemma_bits_wire_agree, lemma_exchange_records,
    lemma_step_records, lemma_wire_trace_push, select_wire, sleep_wire, wire_trace, BusOp,
    Levels, LineRecords, Waits, WireOp, CTRL_8BIT, CTRL_CLK, DRIVER_SLEEP,
};

verus! {

/// A line could not be read or driven.
#[derive(Copy, Clone, Debug, PartialEq, Eq, Structural)]
pub struct LineFault;

/// A digital input of the host platform.
///
/// `seen` is the record of the line: one entry for every read, oldest first.
/// It says which reads were made and what each gave, and nothing of the
/// line itself. It is ghost and never called when the program runs: an
/// implementation outside verified code may give it any body.
pub trait DigitalInput {
    spec fn seen(&self) -> Levels;

    /// Reads the level of the line: `true` for high. A read that fails
    /// enters the record as low.
    fn is_high(&mut self) -> (r: Result<bool, LineFault>)
        ensures
            final(self).seen() == old(self).seen().push(r == Ok::<bool, LineFault>(true)),
    ;
}

/// A digital output of the host platform.
///
/// `driven` is the record of the line: one entry for every level it was
/// asked to take, oldest first, whether or not the line took it. It is
/// ghost and never called when the program runs: an implementation outside
/// verified code may give it any body.
pub trait DigitalOutput {
    spec fn driven(&self) -> Levels;

    /// Drives the line high (`true`) or low.
    fn set_level(&mut self, high: bool) -> (r: Result<(), LineFault>)
        ensures
            final(self).driven() == old(self).driven().push(high),
    ;
}

/// A delay service of the host platform.
///
/// `waited` is the record of the service: one entry for every wait asked of
/// it, oldest first. It is ghost and never called when the program runs: an
/// implementation outside verified code may give it any body.
pub trait DelayService {
    spec fn waited(&self) -> Waits;

    /// Returns after at least `ns` nanoseconds.
    fn delay_ns(&mut self, ns: u32)
        ensures
            final(self).waited() == old(self).waited().push(ns),
    ;
}

/// Sends commands to a controller and receives its answers, a byte at a
/// time. The bus is full duplex and clocked by the host at 250 kHz.
///
/// `history` is the record of everything the transport has done on the bus,
/// oldest step first; each operation adds exactly one step to it. It is
/// ghost and never called when the program runs: an implementation outside
/// verified code may give it any body.
pub trait PsxTrasferData {
    spec fn history(&self) -> Seq<BusOp>;

    /// Selects the controller. Comes before the first byte of a command.
    fn start_cmd(&mut self)
        ensures
            final(self).history() == old(self).history().push(BusOp::Select),
    ;

    /// Releases the controller. Comes after the last byte of a command.
    fn stop_cmd(&mut self)
        ensures
            final(self).history() == old(self).history().push(BusOp::Deselect),
    ;

    /// Sends one byte and returns the byte that came back meanwhile.
    fn send_8bit(&mut self, byte: u8) -> (answer: u8)
        ensures
            final(self).history() == old(self).history().push(
                BusOp::Exchange { tx: byte, rx: answer },
            ),
    ;

    /// Rests for the time a controller needs between two commands.
    fn sleep(&mut self)
        ensures
            final(self).history() == old(self).history().push(BusOp::Sleep),
    ;
}

/// The four lines of the bus.
pub struct Connector<Dat, Cmd, Att, Clk> {
    /// Data, from the controller.
    pub dat: Dat,
    /// Command, to the controller.
    pub cmd: Cmd,
    /// Attention: low while the controller is selected.
    pub att: Att,
    /// Clock.
    pub clk: Clk,
}

impl<Dat, Cmd, Att, Clk> Connector<Dat, Cmd, Att, Clk> {
    pub fn new(dat: Dat, cmd: Cmd, att: Att, clk: Clk) -> (wires: Self)
        ensures
            wires == (Connector { dat, cmd, att, clk }),
    {
        Connector { dat, cmd, att, clk }
    }
}

/// A controller connected to ordinary digital pins.
///
/// Every operation is stated over the records of the lines and of the delay
/// service, which only calls on them extend. Besides, the device keeps the
/// record `wire` of all its actions in the order it took them. A line that
/// fails is not reported: a failed output is taken as driven, a failed
/// input is read as low.
pub struct PsxDevice<Dat, Cmd, Att, Clk, D> {
    wires: Connector<Dat, Cmd, Att, Clk>,
    delay: D,
    wire_log: Ghost<Seq<WireOp>>,
    bus_log: Ghost<Seq<BusOp>>,
    first_records: Ghost<LineRecords>,
}

/// Bit by bit, what setting bit `i` of a byte does.
proof fn lemma_set_bit(byte: u8, i: u8, j: u8)
    by (bit_vector)
    requires
        i < 8,
        j < 8,
    ensures
        bit_of(byte | (1u8 << i), j) == (bit_of(byte, j) || j == i),
{
}

/// Testing a byte against the mask of bit `i` reads bit `i`.
proof fn lemma_mask_reads_bit(byte: u8, i: u8)
    by (bit_vector)
    requires
        i < 8,
    ensures
        ((byte & (1u8 << i)) > 0) == bit_of(byte, i),
{
}

/// No bit of zero is set.
proof fn lemma_zero_bits(j: u8)
    by (bit_vector)
    requires
        j < 8,
    ensures
        !bit_of(0u8, j),
{
}

/// The level to put on the command line for bit `i` of an outgoing byte.
pub fn command_level(byte: u8, i: u8) -> (level: bool)
    requires
        i < 8,
    ensures
        level == bit_of(byte, i),
{
    proof {
        lemma_mask_reads_bit(byte, i);
    }
    let bit: u8 = 1 << i;
    (byte & bit) > 0
}

/// The incoming byte as assembled so far, with the sample of bit `i` taken
/// in: a high sample sets the bit, a low one leaves the byte as it is.
pub fn take_sample(answer: u8, i: u8, level: bool) -> (next: u8)
    requires
        i < 8,
    ensures
        forall|j: u8| j < 8 ==> bit_of(next, j) == (bit_of(answer, j) || (j == i && level)),
{
    if level {
        let bit: u8 = 1 << i;
        assert forall|j: u8| j < 8 implies bit_of(answer | bit, j) == (bit_of(answer, j) || j
            == i) by {
            lemma_set_bit(answer, i, j);
        }
        answer | bit
    } else {
        answer
    }
}

impl<Dat, Cmd, Att, Clk, D> PsxDevice<Dat, Cmd, Att, Clk, D> where
    Dat: DigitalInput,
    Cmd: DigitalOutput,
    Att: DigitalOutput,
    Clk: DigitalOutput,
    D: DelayService,
 {
    /// Every action taken on the lines so far, oldest first.
    pub closed spec fn wire(&self) -> Seq<WireOp> {
        self.wire_log@
    }

    /// The lines of the device.
    pub closed spec fn wires(&self) -> Connector<Dat, Cmd, Att, Clk> {
        self.wires
    }

    /// The delay service of the device.
    pub closed spec fn timer(&self) -> D {
        self.delay
    }

    /// The records of the four lines and of the delay service.
    pub open spec fn records(&self) -> LineRecords {
        LineRecords {
            dat: self.wires().dat.seen(),
            cmd: self.wires().cmd.driven(),
            att: self.wires().att.driven(),
            clk: self.wires().clk.driven(),
            timer: self.timer().waited(),
        }
    }

    /// The records of the lines and of the delay service as they were when
    /// the device was made.
    pub closed spec fn first_records(&self) -> LineRecords {
        self.first_records@
    }

    /// Whether the wire record agrees with the records of the lines: what
    /// it holds for each line, and for the delay service, is exactly what
    /// that line's own record has gained since the device was made.
    pub open spec fn faithful(&self) -> bool {
        self.records() == self.first_records().after(self.wire())
    }

    /// Whether the wire record is exactly that of the bus steps taken.
    pub open spec fn coherent(&self) -> bool {
        self.wire() == wire_trace(self.history())
    }

    pub fn new(dat: Dat, cmd: Cmd, att: Att, clk: Clk, delay: D) -> (device: Self)
        ensures
            device.wires() == (Connector { dat, cmd, att, clk }),
            device.timer() == delay,
            device.history() == Seq::<BusOp>::empty(),
            device.wire() == Seq::<WireOp>::empty(),
            device.first_records() == device.records(),
            device.coherent(),
            device.faithful(),
    {
        let wires = Connector::new(dat, cmd, att, clk);
        let ghost first = LineRecords {
            dat: wires.dat.seen(),
            cmd: wires.cmd.driven(),
            att: wires.att.driven(),
            clk: wires.clk.driven(),
            timer: delay.waited(),
        };
        PsxDevice {
            wires,
            delay,
            wire_log: Ghost(Seq::empty()),
            bus_log: Ghost(Seq::empty()),
            first_records: Ghost(first),
        }
    }

    fn drive_command(&mut self, high: bool)
        ensures
            final(self).records() == old(self).records().with(WireOp::Command(high)),
            final(self).wire() == old(self).wire().push(WireOp::Command(high)),
            final(self).history() == old(self).history(),
            final(self).first_records() == old(self).first_records(),
    {
        let _ = self.wires.cmd.set_level(high);
        proof {
            self.wire_log = Ghost(self.wire_log@.push(WireOp::Command(high)));
        }
    }

    fn drive_clock(&mut self, high: bool)
        ensures
            final(self).records() == old(self).records().with(WireOp::Clock(high)),
            final(self).wire() == old(self).wire().push(WireOp::Clock(high)),
            final(self).history() == old(self).history(),
            final(self).first_records() == old(self).first_records(),
    {
        let _ = self.wires.clk.set_level(high);
        proof {
            self.wire_log = Ghost(self.wire_log@.push(WireOp::Clock(high)));
        }
    }

    fn drive_attention(&mut self, high: bool)
        ensures
            final(self).records() == old(self).records().with(WireOp::Attention(high)),
            final(self).wire() == old(self).wire().push(WireOp::Attention(high)),
            final(self).history() == old(self).history(),
            final(self).first_records() == old(self).first_records(),
    {
        let _ = self.wires.att.set_level(high);
        proof {
            self.wire_log = Ghost(self.wire_log@.push(WireOp::Attention(high)));
        }
    }

    fn sample(&mut self) -> (level: bool)
        ensures
            final(self).records() == old(self).records().with(WireOp::Sample(level)),
            final(self).wire() == old(self).wire().push(WireOp::Sample(level)),
            final(self).history() == old(self).history(),
            final(self).first_records() == old(self).first_records(),
    {
        let level = match self.wires.dat.is_high() {
            Ok(level) => level,
            Err(_) => false,
        };
        proof {
            self.wire_log = Ghost(self.wire_log@.push(WireOp::Sample(level)));
        }
        level
    }
}

impl<Dat, Cmd, Att, Clk, D> DelayService for PsxDevice<Dat, Cmd, Att, Clk, D> where
    Dat: DigitalInput,
    Cmd: DigitalOutput,
    Att: DigitalOutput,
    Clk: DigitalOutput,
    D: DelayService,
 {
    open spec fn waited(&self) -> Waits {
        self.timer().waited()
    }

    fn delay_ns(&mut self, ns: u32)
        ensures
            final(self).records() == old(self).records().with(WireOp::Delay(ns)),
            final(self).wire() == old(self).wire().push(WireOp::Delay(ns)),
            final(self).history() == old(self).history(),
            final(self).first_records() == old(self).first_records(),
            old(self).faithful() ==> final(self).faithful(),
    {
        self.delay.delay_ns(ns);
        proof {
            self.wire_log = Ghost(self.wire_log@.push(WireOp::Delay(ns)));
            lemma_after_push(old(self).first_records(), old(self).wire(), WireOp::Delay(ns));
        }
    }
}

impl<Dat, Cmd, Att, Clk, D> PsxTrasferData for PsxDevice<Dat, Cmd, Att, Clk, D> where
    Dat: DigitalInput,
    Cmd: DigitalOutput,
    Att: DigitalOutput,
    Clk: DigitalOutput,
    D: DelayService,
 {
    closed spec fn history(&self) -> Seq<BusOp> {
        self.bus_log@
    }

    fn start_cmd(&mut self)
        ensures
            final(self).records() == old(self).records().selected(),
            final(self).wire() == old(self).wire() + select_wire(),
            final(self).first_records() == old(self).first_records(),
            old(self).coherent() ==> final(self).coherent(),
            old(self).faithful() ==> final(self).faithful(),
    {
        self.drive_command(true);
        self.drive_clock(true);
        self.delay_ns(CTRL_CLK);
        self.drive_attention(false);
        self.delay_ns(CTRL_8BIT);
        proof {
            self.bus_log = Ghost(self.bus_log@.push(BusOp::Select));
            lemma_step_records(old(self).records());
            lemma_after_concat(old(self).first_records(), old(self).wire(), select_wire());
            assert(self.wire() =~= old(self).wire() + select_wire());
            lemma_wire_trace_push(old(self).history(), BusOp::Select);
        }
    }

    fn stop_cmd(&mut self)
        ensures
            final(self).records() == old(self).records().deselected(),
            final(self).wire() == old(self).wire() + deselect_wire(),
            final(self).first_records() == old(self).first_records(),
            old(self).coherent() ==> final(self).coherent(),
            old(self).faithful() ==> final(self).faithful(),
    {
        self.drive_attention(true);
        self.delay_ns(CTRL_8BIT);
        proof {
            self.bus_log = Ghost(self.bus_log@.push(BusOp::Deselect));
            lemma_step_records(old(self).records());
            lemma_after_concat(old(self).first_records(), old(self).wire(), deselect_wire());
            assert(self.wire() =~= old(self).wire() + deselect_wire());
            lemma_wire_trace_push(old(self).history(), BusOp::Deselect);
        }
    }

    fn send_8bit(&mut self, byte: u8) -> (answer: u8)
        ensures
            final(self).records() == old(self).records().exchanged(byte, answer),
            final(self).wire() == old(self).wire() + exchange_wire(byte, answer),
            final(self).first_records() == old(self).first_records(),
            old(self).coherent() ==> final(self).coherent(),
            old(self).faithful() ==> final(self).faithful(),
    {
        let mut answer: u8 = 0;
        let mut i: u8 = 0;
        assert forall|j: u8| j < 8 implies !bit_of(answer, j) by {
            lemma_zero_bits(j);
        }
        while i < 8
            invariant
                i <= 8,
                forall|j: u8| i <= j < 8 ==> !bit_of(answer, j),
                self.records() == old(self).records().after(bits_wire(byte, answer, i as nat)),
                self.wire() == old(self).wire() + bits_wire(byte, answer, i as nat),
                self.history() == old(self).history(),
                self.first_records() == old(self).first_records(),
            decreases 8 - i,
        {
            let ghost seen: u8 = answer;
            let ghost before = self.records();
            let val = command_level(byte, i);
            self.drive_command(val);
            self.drive_clock(false);
            self.delay_ns(CTRL_CLK);
            let level = self.sample();
            answer = take_sample(answer, i, level);
            self.drive_clock(true);
            self.delay_ns(CTRL_CLK);
            proof {
                lemma_bits_wire_agree(byte, seen, answer, i as nat);
                lemma_bit_records(before, val, level);
                lemma_after_concat(
                    old(self).records(),
                    bits_wire(byte, answer, i as nat),
                    bit_wire(val, level),
                );
            }
            i += 1;
        }
        self.drive_command(true);
        self.delay_ns(CTRL_8BIT);
        proof {
            self.bus_log = Ghost(self.bus_log@.push(BusOp::Exchange { tx: byte, rx: answer }));
            lemma_wire_trace_push(old(self).history(), BusOp::Exchange { tx: byte, rx: answer });
            let bits = bits_wire(byte, answer, 8);
            let high = bits.push(WireOp::Command(true));
            assert(exchange_wire(byte, answer) =~= high.push(WireOp::Delay(CTRL_8BIT)));
            assert(self.wire() =~= old(self).wire() + exchange_wire(byte, answer));
            lemma_after_push(old(self).records(), bits, WireOp::Command(true));
            lemma_after_push(old(self).records(), high, WireOp::Delay(CTRL_8BIT));
            lemma_exchange_records(old(self).records(), byte, answer);
            lemma_after_concat(
                old(self).first_records(),
                old(self).wire(),
                exchange_wire(byte, answer),
            );
        }
        answer
    }

    fn sleep(&mut self)
        ensures
            final(self).records() == old(self).records().rested(),
            final(self).wire() == old(self).wire() + sleep_wire(),
            final(self).first_records() == old(self).first_records(),
            old(self).coherent() ==> final(self).coherent(),
            old(self).faithful() ==> final(self).faithful(),
    {
        self.delay_ns(DRIVER_SLEEP);
        proof {
            self.bus_log = Ghost(self.bus_log@.push(BusOp::Sleep));
            lemma_step_records(old(self).records());
            lemma_after_concat(old(self).first_records(), old(self).wire(), sleep_wire());
            assert(self.wire() =~= old(self).wire() + sleep_wire());
            lemma_wire_trace_push(old(self).history(), BusOp::Sleep);
        }
    }
}

} // verus!
