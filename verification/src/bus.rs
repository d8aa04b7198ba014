//! What happens on the controller bus, at two levels of detail.
//!
//! A [`BusOp`] is one step of the protocol: selecting the controller,
//! exchanging a byte with it, releasing it, or resting between commands. A
//! [`WireOp`] is one action on a single line, or one wait. The functions of
//! this module say which wire actions make up each bus step.

use vstd::prelude::*;

verus! {

/// Half a clock period, in nanoseconds.
pub const CTRL_CLK: u32 = 2000;

/// Settle time after a byte and around selection, in nanoseconds.
pub const CTRL_8BIT: u32 = 4000;

/// Rest between two commands, in nanoseconds.
pub const DRIVER_SLEEP: u32 = 8_000_000;

/// One step of the protocol, as seen on the bus.
pub enum BusOp {
    /// The controller was selected.
    Select,
    /// The controller was released.
    Deselect,
    /// The bus rested for the time a controller needs between commands.
    Sleep,
    /// One byte went out while one byte came in.
    Exchange { tx: u8, rx: u8 },
}

/// One action on a line of the bus.
pub enum WireOp {
    /// The command line was driven high (`true`) or low.
    Command(bool),
    /// The clock line was driven high (`true`) or low.
    Clock(bool),
    /// The attention line was driven high (`true`) or low.
    Attention(bool),
    /// The data line was read and taken as high (`true`) or low.
    Sample(bool),
    /// Nothing happened for this many nanoseconds.
    Delay(u32),
}

/// Bit `i` of a byte, bit 0 being the least significant.
pub open spec fn bit_of(byte: u8, i: u8) -> bool {
    (byte >> i) & 1 == 1
}

/// Selecting the controller: command and clock go high and settle for half
/// a clock period, then attention goes low and settles.
pub open spec fn select_wire() -> Seq<WireOp> {
    seq![
        WireOp::Command(true),
        WireOp::Clock(true),
        WireOp::Delay(CTRL_CLK),
        WireOp::Attention(false),
        WireOp::Delay(CTRL_8BIT),
    ]
}

/// Releasing the controller: attention goes high and settles.
pub open spec fn deselect_wire() -> Seq<WireOp> {
    seq![WireOp::Attention(true), WireOp::Delay(CTRL_8BIT)]
}

/// Resting between commands.
pub open spec fn sleep_wire() -> Seq<WireOp> {
    seq![WireOp::Delay(DRIVER_SLEEP)]
}

/// One clock cycle: the outgoing bit is put on the command line, the clock
/// falls, and after half a period the data line is sampled; then the clock
/// rises for the other half.
pub open spec fn bit_wire(tx: bool, rx: bool) -> Seq<WireOp> {
    seq![
        WireOp::Command(tx),
        WireOp::Clock(false),
        WireOp::Delay(CTRL_CLK),
        WireOp::Sample(rx),
        WireOp::Clock(true),
        WireOp::Delay(CTRL_CLK),
    ]
}

/// The clock cycles of the first `n` bits of a byte exchange, least
/// significant bit first.
pub open spec fn bits_wire(tx: u8, rx: u8, n: nat) -> Seq<WireOp>
    decreases n,
{
    if n == 0 {
        Seq::empty()
    } else {
        bits_wire(tx, rx, (n - 1) as nat) + bit_wire(
            bit_of(tx, (n - 1) as u8),
            bit_of(rx, (n - 1) as u8),
        )
    }
}

/// A byte exchange: eight clock cycles, then the command line goes back
/// high and settles.
pub open spec fn exchange_wire(tx: u8, rx: u8) -> Seq<WireOp> {
    bits_wire(tx, rx, 8) + seq![WireOp::Command(true), WireOp::Delay(CTRL_8BIT)]
}

/// The wire actions of one bus step.
pub open spec fn wire_of(op: BusOp) -> Seq<WireOp> {
    match op {
        BusOp::Select => select_wire(),
        BusOp::Deselect => deselect_wire(),
        BusOp::Sleep => sleep_wire(),
        BusOp::Exchange { tx, rx } => exchange_wire(tx, rx),
    }
}

/// The wire actions of a run of bus steps, in order.
pub open spec fn wire_trace(ops: Seq<BusOp>) -> Seq<WireOp>
    decreases ops.len(),
{
    if ops.len() == 0 {
        Seq::empty()
    } else {
        wire_trace(ops.drop_last()) + wire_of(ops.last())
    }
}

/// The record of a line: every level driven onto it, or read from it,
/// oldest first.
pub type Levels = Seq<bool>;

/// The record of a delay service: every wait asked of it, in nanoseconds,
/// oldest first.
pub type Waits = Seq<u32>;

/// The records of the four lines and of the delay service, side by side.
pub struct LineRecords {
    /// The levels read from the data line.
    pub dat: Levels,
    /// The levels driven onto the command line.
    pub cmd: Levels,
    /// The levels driven onto the attention line.
    pub att: Levels,
    /// The levels driven onto the clock line.
    pub clk: Levels,
    /// The waits asked of the delay service.
    pub timer: Waits,
}

impl LineRecords {
    /// These records after one more wire action: the action is added to the
    /// record of the line it belongs to, and to no other.
    pub open spec fn with(self, op: WireOp) -> LineRecords {
        match op {
            WireOp::Command(level) => LineRecords { cmd: self.cmd.push(level), ..self },
            WireOp::Clock(level) => LineRecords { clk: self.clk.push(level), ..self },
            WireOp::Attention(level) => LineRecords { att: self.att.push(level), ..self },
            WireOp::Sample(level) => LineRecords { dat: self.dat.push(level), ..self },
            WireOp::Delay(ns) => LineRecords { timer: self.timer.push(ns), ..self },
        }
    }

    /// These records after a run of wire actions.
    pub open spec fn after(self, ops: Seq<WireOp>) -> LineRecords
        decreases ops.len(),
    {
        if ops.len() == 0 {
            self
        } else {
            self.after(ops.drop_last()).with(ops.last())
        }
    }

    /// These records after a byte exchange, line by line. The data line was
    /// read eight times and gave the bits of `rx`, least significant first.
    /// The command line carried the bits of `tx`, least significant first,
    /// and then went high. The clock line fell and rose eight times. The
    /// attention line was not touched. Each half period was waited for, and
    /// then the settle time.
    pub open spec fn exchanged(self, tx: u8, rx: u8) -> LineRecords {
        LineRecords {
            dat: self.dat + Seq::new(8, |i: int| bit_of(rx, i as u8)),
            cmd: (self.cmd + Seq::new(8, |i: int| bit_of(tx, i as u8))).push(true),
            att: self.att,
            clk: self.clk + Seq::new(16, |k: int| k % 2 == 1),
            timer: (self.timer + Seq::new(16, |k: int| CTRL_CLK)).push(CTRL_8BIT),
        }
    }

    /// These records after the controller was selected.
    pub open spec fn selected(self) -> LineRecords {
        LineRecords {
            dat: self.dat,
            cmd: self.cmd.push(true),
            att: self.att.push(false),
            clk: self.clk.push(true),
            timer: self.timer.push(CTRL_CLK).push(CTRL_8BIT),
        }
    }

    /// These records after the controller was released.
    pub open spec fn deselected(self) -> LineRecords {
        LineRecords { att: self.att.push(true), timer: self.timer.push(CTRL_8BIT), ..self }
    }

    /// These records after a rest between commands.
    pub open spec fn rested(self) -> LineRecords {
        LineRecords { timer: self.timer.push(DRIVER_SLEEP), ..self }
    }
}

/// One more wire action at the end of a run is one more entry in the
/// records.
pub proof fn lemma_after_push(records: LineRecords, ops: Seq<WireOp>, op: WireOp)
    ensures
        records.after(ops.push(op)) == records.after(ops).with(op),
{
    assert(ops.push(op).drop_last() =~= ops);
}

/// The records after two runs, one following the other.
pub proof fn lemma_after_concat(records: LineRecords, a: Seq<WireOp>, b: Seq<WireOp>)
    ensures
        records.after(a + b) == records.after(a).after(b),
    decreases b.len(),
{
    if b.len() == 0 {
        assert(a + b =~= a);
    } else {
        lemma_after_concat(records, a, b.drop_last());
        assert((a + b).drop_last() =~= a + b.drop_last());
        assert((a + b).last() == b.last());
    }
}

/// The records after selecting, releasing and resting, line by line.
pub proof fn lemma_step_records(records: LineRecords)
    ensures
        records.after(select_wire()) == records.selected(),
        records.after(deselect_wire()) == records.deselected(),
        records.after(sleep_wire()) == records.rested(),
{
    let none = Seq::<WireOp>::empty();
    let s1 = none.push(WireOp::Command(true));
    let s2 = s1.push(WireOp::Clock(true));
    let s3 = s2.push(WireOp::Delay(CTRL_CLK));
    let s4 = s3.push(WireOp::Attention(false));
    lemma_after_push(records, none, WireOp::Command(true));
    lemma_after_push(records, s1, WireOp::Clock(true));
    lemma_after_push(records, s2, WireOp::Delay(CTRL_CLK));
    lemma_after_push(records, s3, WireOp::Attention(false));
    lemma_after_push(records, s4, WireOp::Delay(CTRL_8BIT));
    assert(select_wire() =~= s4.push(WireOp::Delay(CTRL_8BIT)));
    let d1 = none.push(WireOp::Attention(true));
    lemma_after_push(records, none, WireOp::Attention(true));
    lemma_after_push(records, d1, WireOp::Delay(CTRL_8BIT));
    assert(deselect_wire() =~= d1.push(WireOp::Delay(CTRL_8BIT)));
    lemma_after_push(records, none, WireOp::Delay(DRIVER_SLEEP));
    assert(sleep_wire() =~= none.push(WireOp::Delay(DRIVER_SLEEP)));
}

/// The records after one clock cycle: one level on the command line, one
/// fall and one rise of the clock, one sample, two half periods.
pub proof fn lemma_bit_records(records: LineRecords, tx: bool, rx: bool)
    ensures
        records.after(bit_wire(tx, rx)) == records.with(WireOp::Command(tx)).with(
            WireOp::Clock(false),
        ).with(WireOp::Delay(CTRL_CLK)).with(WireOp::Sample(rx)).with(WireOp::Clock(true)).with(
            WireOp::Delay(CTRL_CLK),
        ),
{
    let none = Seq::<WireOp>::empty();
    let s1 = none.push(WireOp::Command(tx));
    let s2 = s1.push(WireOp::Clock(false));
    let s3 = s2.push(WireOp::Delay(CTRL_CLK));
    let s4 = s3.push(WireOp::Sample(rx));
    let s5 = s4.push(WireOp::Clock(true));
    lemma_after_push(records, none, WireOp::Command(tx));
    lemma_after_push(records, s1, WireOp::Clock(false));
    lemma_after_push(records, s2, WireOp::Delay(CTRL_CLK));
    lemma_after_push(records, s3, WireOp::Sample(rx));
    lemma_after_push(records, s4, WireOp::Clock(true));
    lemma_after_push(records, s5, WireOp::Delay(CTRL_CLK));
    assert(bit_wire(tx, rx) =~= s5.push(WireOp::Delay(CTRL_CLK)));
}

/// The records after the first `n` clock cycles of a byte exchange, line by
/// line.
pub proof fn lemma_bits_records(records: LineRecords, tx: u8, rx: u8, n: nat)
    requires
        n <= 8,
    ensures
        records.after(bits_wire(tx, rx, n)) == (LineRecords {
            dat: records.dat + Seq::new(n, |i: int| bit_of(rx, i as u8)),
            cmd: records.cmd + Seq::new(n, |i: int| bit_of(tx, i as u8)),
            att: records.att,
            clk: records.clk + Seq::new(2 * n, |k: int| k % 2 == 1),
            timer: records.timer + Seq::new(2 * n, |k: int| CTRL_CLK),
        }),
    decreases n,
{
    let now = records.after(bits_wire(tx, rx, n));
    let dat = records.dat + Seq::new(n, |i: int| bit_of(rx, i as u8));
    let cmd = records.cmd + Seq::new(n, |i: int| bit_of(tx, i as u8));
    let clk = records.clk + Seq::new(2 * n, |k: int| k % 2 == 1);
    let timer = records.timer + Seq::new(2 * n, |k: int| CTRL_CLK);
    if n == 0 {
        assert(now.dat =~= dat);
        assert(now.cmd =~= cmd);
        assert(now.clk =~= clk);
        assert(now.timer =~= timer);
    } else {
        let m = (n - 1) as nat;
        let before = records.after(bits_wire(tx, rx, m));
        lemma_bits_records(records, tx, rx, m);
        lemma_after_concat(
            records,
            bits_wire(tx, rx, m),
            bit_wire(bit_of(tx, m as u8), bit_of(rx, m as u8)),
        );
        lemma_bit_records(before, bit_of(tx, m as u8), bit_of(rx, m as u8));
        assert(now.dat =~= dat);
        assert(now.cmd =~= cmd);
        assert(now.clk =~= clk);
        assert(now.timer =~= timer);
    }
}

/// The records after a byte exchange, line by line.
pub proof fn lemma_exchange_records(records: LineRecords, tx: u8, rx: u8)
    ensures
        records.after(exchange_wire(tx, rx)) == records.exchanged(tx, rx),
{
    let bits = bits_wire(tx, rx, 8);
    let high = bits.push(WireOp::Command(true));
    lemma_bits_records(records, tx, rx, 8);
    lemma_after_push(records, bits, WireOp::Command(true));
    lemma_after_push(records, high, WireOp::Delay(CTRL_8BIT));
    assert(exchange_wire(tx, rx) =~= high.push(WireOp::Delay(CTRL_8BIT)));
}

/// Time that a run of wire actions spends waiting, in nanoseconds.
pub open spec fn wire_time(ops: Seq<WireOp>) -> nat
    decreases ops.len(),
{
    if ops.len() == 0 {
        0
    } else {
        wire_time(ops.drop_last()) + match ops.last() {
            WireOp::Delay(ns) => ns as nat,
            _ => 0,
        }
    }
}

/// The waiting times of two runs add up when one run follows the other.
pub proof fn lemma_wire_time_concat(a: Seq<WireOp>, b: Seq<WireOp>)
    ensures
        wire_time(a + b) == wire_time(a) + wire_time(b),
    decreases b.len(),
{
    if b.len() == 0 {
        assert(a + b =~= a);
    } else {
        lemma_wire_time_concat(a, b.drop_last());
        assert((a + b).drop_last() =~= a + b.drop_last());
        assert((a + b).last() == b.last());
    }
}

/// One clock cycle takes two half periods: 4000 ns, a clock of 250 kHz.
pub proof fn lemma_bit_time(tx: bool, rx: bool)
    ensures
        wire_time(bit_wire(tx, rx)) == 2 * CTRL_CLK,
        2 * CTRL_CLK == 4000,
{
    let ops = bit_wire(tx, rx);
    reveal_with_fuel(wire_time, 7);
    assert(ops.drop_last() =~= ops.subrange(0, 5));
    assert(ops.subrange(0, 5).drop_last() =~= ops.subrange(0, 4));
    assert(ops.subrange(0, 4).drop_last() =~= ops.subrange(0, 3));
    assert(ops.subrange(0, 3).drop_last() =~= ops.subrange(0, 2));
    assert(ops.subrange(0, 2).drop_last() =~= ops.subrange(0, 1));
    assert(ops.subrange(0, 1).drop_last() =~= ops.subrange(0, 0));
}

/// The first `n` clock cycles of a byte exchange take `n` clock periods.
pub proof fn lemma_bits_time(tx: u8, rx: u8, n: nat)
    ensures
        wire_time(bits_wire(tx, rx, n)) == n * (2 * CTRL_CLK),
    decreases n,
{
    if n > 0 {
        let m = (n - 1) as nat;
        let cycle = bit_wire(bit_of(tx, m as u8), bit_of(rx, m as u8));
        lemma_bits_time(tx, rx, m);
        lemma_bit_time(bit_of(tx, m as u8), bit_of(rx, m as u8));
        lemma_wire_time_concat(bits_wire(tx, rx, m), cycle);
        assert(bits_wire(tx, rx, n) == bits_wire(tx, rx, m) + cycle);
        assert(wire_time(bits_wire(tx, rx, n)) == m * 4000 + 4000);
        assert(n * 4000 == m * 4000 + 4000) by (nonlinear_arith)
            requires
                n == m + 1,
        ;
    } else {
        assert(wire_time(bits_wire(tx, rx, 0)) == 0);
    }
}

/// A byte exchange takes eight clock periods and the settle time: 36 000 ns.
pub proof fn lemma_exchange_time(tx: u8, rx: u8)
    ensures
        wire_time(exchange_wire(tx, rx)) == 8 * (2 * CTRL_CLK) + CTRL_8BIT,
        8 * (2 * CTRL_CLK) + CTRL_8BIT == 36_000,
{
    let tail = seq![WireOp::Command(true), WireOp::Delay(CTRL_8BIT)];
    lemma_bits_time(tx, rx, 8);
    lemma_wire_time_concat(bits_wire(tx, rx, 8), tail);
    reveal_with_fuel(wire_time, 3);
    assert(tail.drop_last() =~= seq![WireOp::Command(true)]);
    assert(seq![WireOp::Command(true)].drop_last() =~= Seq::<WireOp>::empty());
}

/// Number of times the controller was selected in a run of bus steps.
pub open spec fn selections(ops: Seq<BusOp>) -> nat
    decreases ops.len(),
{
    if ops.len() == 0 {
        0
    } else if ops.last() is Select {
        selections(ops.drop_last()) + 1
    } else {
        selections(ops.drop_last())
    }
}

/// The selections of two runs add up when one run follows the other.
pub proof fn lemma_selections_concat(a: Seq<BusOp>, b: Seq<BusOp>)
    ensures
        selections(a + b) == selections(a) + selections(b),
    decreases b.len(),
{
    if b.len() == 0 {
        assert(a + b =~= a);
    } else {
        lemma_selections_concat(a, b.drop_last());
        assert((a + b).drop_last() =~= a + b.drop_last());
        assert((a + b).last() == b.last());
    }
}

/// A run without a selecting step counts no selection.
pub proof fn lemma_selections_none(ops: Seq<BusOp>)
    requires
        forall|i: int| 0 <= i < ops.len() ==> !(ops[i] is Select),
    ensures
        selections(ops) == 0,
    decreases ops.len(),
{
    if ops.len() > 0 {
        lemma_selections_none(ops.drop_last());
    }
}

/// One more step counts one more selection if it selects, and none if not.
pub proof fn lemma_selections_push(ops: Seq<BusOp>, op: BusOp)
    ensures
        selections(ops.push(op)) == selections(ops) + if op is Select {
            1nat
        } else {
            0nat
        },
{
    assert(ops.push(op).drop_last() =~= ops);
}

/// The clock cycles of the first `n` bits depend on those bits alone.
pub proof fn lemma_bits_wire_agree(tx: u8, rx1: u8, rx2: u8, n: nat)
    requires
        n <= 8,
        forall|j: u8| j < n ==> bit_of(rx1, j) == bit_of(rx2, j),
    ensures
        bits_wire(tx, rx1, n) == bits_wire(tx, rx2, n),
    decreases n,
{
    if n > 0 {
        lemma_bits_wire_agree(tx, rx1, rx2, (n - 1) as nat);
        assert(bit_of(rx1, (n - 1) as u8) == bit_of(rx2, (n - 1) as u8));
    }
}

/// Every byte exchange takes 50 wire actions.
pub proof fn lemma_exchange_wire_len(tx: u8, rx: u8)
    ensures
        exchange_wire(tx, rx).len() == 50,
{
    reveal_with_fuel(bits_wire, 9);
}

/// One more bus step adds its wire actions at the end of the trace.
pub proof fn lemma_wire_trace_push(ops: Seq<BusOp>, op: BusOp)
    ensures
        wire_trace(ops.push(op)) == wire_trace(ops) + wire_of(op),
{
    assert(ops.push(op).drop_last() =~= ops);
}

} // verus!
