//! The protocol, stated over what a driver shows of itself: the bytes of
//! its frame buffer and the history of its bus.
//!
//! Each operation of a driver is described by a relation between the view
//! before, the view after, and the result. Whatever the controller answers
//! is found in the history and in the frame; given those, the relations
//! leave nothing open.

use vstd::prelude::*;
use crate::bus::{
    lemma_selections_concat, lemma_selections_none, lemma_selections_push, selections, BusOp,
};
use crate::buttons::AnalogSticks;
use crate::commands::{
    CResult, Command, ControllerError, DeviceCInfo, DeviceCInfoView, DeviceMode, TX_PS2, TX_PSX,
};
use crate::frame::{buttons_of, header_ok, identity, normalize_motor, payload_len, sticks_of};

verus! {

/// Number of attempts `initialize` makes before it gives up.
pub const INIT_RETRIES: u8 = 10;

/// What a driver shows of itself.
pub struct DriverView {
    /// The bytes of the frame buffer: the most recent response, and behind
    /// it whatever earlier, longer responses left there.
    pub frame: Seq<u8>,
    /// Every step taken on the bus so far, oldest first.
    pub history: Seq<BusOp>,
}

impl DriverView {
    /// This view after a rest on the bus.
    pub open spec fn slept(self) -> DriverView {
        DriverView { frame: self.frame, history: self.history.push(BusOp::Sleep) }
    }
}

/// The byte that a command sends at position `k` of its payload: the bytes
/// the caller supplies, then the filler.
pub open spec fn payload_byte(lead: Seq<u8>, filler: u8, k: int) -> u8 {
    if k < lead.len() {
        lead[k]
    } else {
        filler
    }
}

/// The three exchanges that open every command: the bytes `0x01`, command
/// code and `0x00` go out, the header of the response comes in.
pub open spec fn header_exchanges(code: u8, frame: Seq<u8>) -> Seq<BusOp> {
    seq![
        BusOp::Exchange { tx: 0x01, rx: frame[0] },
        BusOp::Exchange { tx: code, rx: frame[1] },
        BusOp::Exchange { tx: 0x00, rx: frame[2] },
    ]
}

/// The first `n` exchanges of the payload of a command whose answer is in
/// `frame`.
pub open spec fn payload_exchanges(lead: Seq<u8>, filler: u8, frame: Seq<u8>, n: nat) -> Seq<
    BusOp,
> {
    Seq::new(
        n,
        |k: int| BusOp::Exchange { tx: payload_byte(lead, filler, k), rx: frame[3 + k] },
    )
}

/// Number of payload bytes that a command exchanges when it meets the
/// response in `frame`. After an invalid header there is no payload. After
/// a valid one there are as many bytes as the response announces, or as the
/// caller supplies if that is more.
pub open spec fn payload_exchanged(frame: Seq<u8>, lead: nat) -> nat {
    if !header_ok(frame) {
        0
    } else if lead > payload_len(frame) {
        lead
    } else {
        payload_len(frame) as nat
    }
}

/// Number of bytes that a command exchanges in all, header included.
pub open spec fn exchanged_len(frame: Seq<u8>, lead: nat) -> nat {
    3 + payload_exchanged(frame, lead)
}

/// The bus steps of one command whose answer is in `frame`: the controller
/// is selected, header and payload are exchanged, the controller is
/// released.
pub open spec fn command_ops(code: u8, lead: Seq<u8>, filler: u8, frame: Seq<u8>) -> Seq<BusOp> {
    seq![BusOp::Select] + header_exchanges(code, frame) + payload_exchanges(
        lead,
        filler,
        frame,
        payload_exchanged(frame, lead.len()),
    ) + seq![BusOp::Deselect]
}

/// One command was sent: the history grew by the steps of that command, the
/// frame holds the answer, and the bytes of the frame behind the answer are
/// as they were.
pub open spec fn command_step(
    pre: DriverView,
    post: DriverView,
    code: u8,
    lead: Seq<u8>,
    filler: u8,
) -> bool {
    &&& post.frame.len() == pre.frame.len()
    &&& forall|i: int|
        exchanged_len(post.frame, lead.len()) <= i < post.frame.len() ==> post.frame[i]
            == pre.frame[i]
    &&& post.history == pre.history + command_ops(code, lead, filler, post.frame)
}

/// Every command selects the controller exactly once.
pub proof fn lemma_command_selects_once(code: u8, lead: Seq<u8>, filler: u8, frame: Seq<u8>)
    ensures
        selections(command_ops(code, lead, filler, frame)) == 1,
{
    let select = seq![BusOp::Select];
    let header = header_exchanges(code, frame);
    let payload = payload_exchanges(lead, filler, frame, payload_exchanged(frame, lead.len()));
    let deselect = seq![BusOp::Deselect];
    lemma_selections_push(Seq::empty(), BusOp::Select);
    lemma_selections_none(header);
    lemma_selections_none(payload);
    lemma_selections_none(deselect);
    lemma_selections_concat(select, header);
    lemma_selections_concat(select + header, payload);
    lemma_selections_concat(select + header + payload, deselect);
}

/// A command adds one selection to the history.
pub proof fn lemma_step_selects_once(
    pre: DriverView,
    post: DriverView,
    code: u8,
    lead: Seq<u8>,
    filler: u8,
)
    requires
        command_step(pre, post, code, lead, filler),
    ensures
        selections(post.history) == selections(pre.history) + 1,
{
    lemma_command_selects_once(code, lead, filler, post.frame);
    lemma_selections_concat(pre.history, command_ops(code, lead, filler, post.frame));
}

/// What a command returns: success after a valid header, `BadHeader` after
/// any other.
pub open spec fn command_result(frame: Seq<u8>) -> CResult<()> {
    if header_ok(frame) {
        Ok(())
    } else {
        Err(ControllerError::BadHeader)
    }
}

/// What a poll returns for the response in `frame`.
pub open spec fn poll_result(frame: Seq<u8>) -> CResult<u16> {
    if header_ok(frame) {
        Ok(buttons_of(frame))
    } else {
        Err(ControllerError::BadHeader)
    }
}

/// The payload bytes that a poll with vibration supplies.
pub open spec fn motor_bytes(m1: u8, m2: u8) -> Seq<u8> {
    seq![normalize_motor(m1), normalize_motor(m2)]
}

/// The stick positions to report for the response in `frame`: those of the
/// response if it came from a controller in analog mode, else the centre.
pub open spec fn sticks_reading(frame: Seq<u8>) -> AnalogSticks {
    if identity(frame) == 0x7 {
        sticks_of(frame)
    } else {
        AnalogSticks::centered()
    }
}

/// The mode to report for the response in `frame`.
pub open spec fn mode_reading(frame: Seq<u8>) -> DeviceMode {
    DeviceMode::of_id(frame[1])
}

/// Attempts at the identity query were made along `trail`, which starts
/// with the view before the first attempt and holds the view after each
/// attempt, in order. Every attempt came after a rest, and every attempt but
/// the last met an invalid header.
pub open spec fn attempts(pre: DriverView, post: DriverView, trail: Seq<DriverView>) -> bool {
    &&& trail.len() >= 1
    &&& trail[0] == pre
    &&& trail.last() == post
    &&& forall|k: int|
        0 <= k < trail.len() - 1 ==> command_step(
            (#[trigger] trail[k]).slept(),
            trail[k + 1],
            Command::QueryDS2AnalogMode.spec_code(),
            Seq::empty(),
            TX_PS2,
        )
    &&& forall|k: int| 0 < k < trail.len() - 1 ==> !header_ok((#[trigger] trail[k]).frame)
}

/// One more attempt extends a trail of attempts, if the last attempt so far
/// met an invalid header.
pub proof fn lemma_attempts_push(pre: DriverView, trail: Seq<DriverView>, next: DriverView)
    requires
        attempts(pre, trail.last(), trail),
        trail.len() > 1 ==> !header_ok(trail.last().frame),
        command_step(
            trail.last().slept(),
            next,
            Command::QueryDS2AnalogMode.spec_code(),
            Seq::empty(),
            TX_PS2,
        ),
    ensures
        attempts(pre, next, trail.push(next)),
{
}

/// Each attempt selects the controller once.
pub proof fn lemma_attempts_selections(pre: DriverView, post: DriverView, trail: Seq<DriverView>)
    requires
        attempts(pre, post, trail),
    ensures
        selections(post.history) == selections(pre.history) + trail.len() - 1,
    decreases trail.len(),
{
    if trail.len() > 1 {
        let shorter = trail.drop_last();
        let before = shorter.last();
        lemma_attempts_selections(pre, before, shorter);
        lemma_selections_push(before.history, BusOp::Sleep);
        lemma_step_selects_once(
            before.slept(),
            post,
            Command::QueryDS2AnalogMode.spec_code(),
            Seq::empty(),
            TX_PS2,
        );
    }
}

/// The controller was waited for with a budget of `retry` attempts: the
/// attempts stopped at the first valid header, or when the budget was spent.
pub open spec fn waited(pre: DriverView, post: DriverView, retry: nat, r: CResult<()>) -> bool {
    exists|trail: Seq<DriverView>|
        {
            &&& #[trigger] attempts(pre, post, trail)
            &&& trail.len() - 1 <= retry
            &&& if trail.len() > 1 && header_ok(post.frame) {
                r == Ok::<(), ControllerError>(())
            } else {
                trail.len() - 1 == retry && r == Err::<(), ControllerError>(
                    ControllerError::NoResponse,
                )
            }
        }
}

/// The controller was initialized: it was waited for with the full budget,
/// and after a valid header the bus rested once more.
pub open spec fn initialized(pre: DriverView, post: DriverView, r: CResult<()>) -> bool {
    exists|last: DriverView|
        {
            &&& #[trigger] waited(pre, last, INIT_RETRIES as nat, r)
            &&& post == if r is Ok {
                last.slept()
            } else {
                last
            }
        }
}

/// Initialization selects the controller at least once and at most
/// `INIT_RETRIES` times. It succeeds only on a valid header. It fails only
/// with `NoResponse`, and only when it has made all its attempts and the
/// last one, like those before it, met an invalid header.
pub proof fn lemma_initialize_attempts(pre: DriverView, post: DriverView, r: CResult<()>)
    requires
        initialized(pre, post, r),
    ensures
        1 <= selections(post.history) - selections(pre.history) <= INIT_RETRIES,
        r is Ok ==> header_ok(post.frame),
        r is Err ==> {
            &&& r == Err::<(), ControllerError>(ControllerError::NoResponse)
            &&& selections(post.history) - selections(pre.history) == INIT_RETRIES
            &&& !header_ok(post.frame)
        },
{
    let last = choose|last: DriverView|
        {
            &&& #[trigger] waited(pre, last, INIT_RETRIES as nat, r)
            &&& post == if r is Ok {
                last.slept()
            } else {
                last
            }
        };
    let trail = choose|trail: Seq<DriverView>|
        {
            &&& #[trigger] attempts(pre, last, trail)
            &&& trail.len() - 1 <= INIT_RETRIES as nat
            &&& if trail.len() > 1 && header_ok(last.frame) {
                r == Ok::<(), ControllerError>(())
            } else {
                trail.len() - 1 == INIT_RETRIES as nat && r == Err::<(), ControllerError>(
                    ControllerError::NoResponse,
                )
            }
        };
    lemma_attempts_selections(pre, last, trail);
    lemma_selections_push(last.history, BusOp::Sleep);
}

/// The payload byte that enters config mode.
pub open spec fn enter_config() -> Seq<u8> {
    seq![0x01u8]
}

/// The payload byte that leaves config mode.
pub open spec fn leave_config() -> Seq<u8> {
    seq![0x00u8]
}

/// Config mode has just been entered from `pre`: after a rest the entering
/// command met a valid header, and the bus rested again. This is where the
/// body of a configuration starts.
pub open spec fn config_entered(pre: DriverView, now: DriverView) -> bool {
    exists|entered: DriverView|
        {
            &&& #[trigger] command_step(
                pre.slept(),
                entered,
                Command::Config.spec_code(),
                enter_config(),
                TX_PSX,
            )
            &&& header_ok(entered.frame)
            &&& now == entered.slept()
        }
}

/// Config mode was left after the body had run to `done` with the result
/// `inner`: a rest, the command that leaves config mode, another rest, and
/// the result of the body. The header that the leaving command meets does
/// not change the result.
pub open spec fn config_left<T>(
    done: DriverView,
    inner: CResult<T>,
    post: DriverView,
    r: CResult<T>,
) -> bool {
    exists|left: DriverView|
        {
            &&& #[trigger] command_step(
                done.slept(),
                left,
                Command::Config.spec_code(),
                leave_config(),
                TX_PSX,
            )
            &&& post == left.slept()
            &&& r == inner
        }
}

/// Config mode was entered and left around a body: a rest, the command that
/// enters config mode, a rest, the body, and then config mode was left.
/// `entered` is the view after the entering command, and the body ran from
/// `entered.slept()` to `done` with the result `inner`. If the entering
/// command meets an invalid header, nothing follows it: the body does not
/// run, and the controller is not told to leave config mode.
pub open spec fn configured<T>(
    pre: DriverView,
    post: DriverView,
    r: CResult<T>,
    entered: DriverView,
    done: DriverView,
    inner: CResult<T>,
) -> bool {
    &&& command_step(pre.slept(), entered, Command::Config.spec_code(), enter_config(), TX_PSX)
    &&& if header_ok(entered.frame) {
        config_left(done, inner, post, r)
    } else {
        post == entered && r == Err::<T, ControllerError>(ControllerError::BadHeader)
    }
}

/// Once config mode is entered it is left again, and the result is that of
/// the body, whatever the body returns and whatever header the leaving
/// command meets: after the body the bus rests, the command that leaves
/// config mode is sent, and the bus rests again.
pub proof fn lemma_config_left<T>(
    pre: DriverView,
    post: DriverView,
    r: CResult<T>,
    entered: DriverView,
    done: DriverView,
    inner: CResult<T>,
)
    requires
        configured(pre, post, r, entered, done, inner),
        header_ok(entered.frame),
    ensures
        r == inner,
        selections(post.history) == selections(done.history) + 1,
        post.history.len() >= done.history.len() + 7,
        post.history.last() == BusOp::Sleep,
        ({
            let at = done.history.len() as int;
            &&& post.history.subrange(0, at) == done.history
            &&& post.history[at] == BusOp::Sleep
            &&& post.history[at + 1] == BusOp::Select
            &&& post.history[at + 2] == (BusOp::Exchange { tx: 0x01, rx: post.frame[0] })
            &&& post.history[at + 3] == (BusOp::Exchange {
                tx: Command::Config.spec_code(),
                rx: post.frame[1],
            })
            &&& post.history[at + 4] == (BusOp::Exchange { tx: 0x00, rx: post.frame[2] })
            &&& header_ok(post.frame) ==> post.history[at + 5] == (BusOp::Exchange {
                tx: 0x00,
                rx: post.frame[3],
            })
        }),
{
    let left = choose|left: DriverView|
        {
            &&& #[trigger] command_step(
                done.slept(),
                left,
                Command::Config.spec_code(),
                leave_config(),
                TX_PSX,
            )
            &&& post == left.slept()
            &&& r == inner
        };
    lemma_selections_push(done.history, BusOp::Sleep);
    lemma_step_selects_once(
        done.slept(),
        left,
        Command::Config.spec_code(),
        leave_config(),
        TX_PSX,
    );
    lemma_selections_push(left.history, BusOp::Sleep);
}

/// The identity query, as it runs in config mode: one command, whose
/// response holds the model byte at payload offset 0 and the mode byte at
/// payload offset 2.
pub open spec fn model_query(pre: DriverView, post: DriverView, r: CResult<(u8, u8)>) -> bool {
    &&& command_step(pre, post, Command::QueryModelAndMode.spec_code(), Seq::empty(), TX_PS2)
    &&& r == if header_ok(post.frame) {
        Ok::<(u8, u8), ControllerError>((post.frame[3], post.frame[5]))
    } else {
        Err::<(u8, u8), ControllerError>(ControllerError::BadHeader)
    }
}

/// Model and mode were queried in config mode.
pub open spec fn queried(pre: DriverView, post: DriverView, r: CResult<(u8, u8)>) -> bool {
    exists|entered: DriverView, done: DriverView, inner: CResult<(u8, u8)>|
        {
            &&& #[trigger] configured(pre, post, r, entered, done, inner)
            &&& header_ok(entered.frame) ==> model_query(entered.slept(), done, inner)
        }
}

/// Number of reads it takes to fetch the three constant tables.
pub open spec fn table_reads() -> nat {
    5
}

/// The command of read `k` of the constant tables: two reads of the first
/// table, one of the second, two of the third.
pub open spec fn table_code(k: int) -> u8 {
    if k < 2 {
        Command::GetConst1.spec_code()
    } else if k == 2 {
        Command::GetConst2.spec_code()
    } else {
        Command::GetConst3.spec_code()
    }
}

/// The page that read `k` of the constant tables selects: the first half of
/// a table, or the second.
pub open spec fn table_page(k: int) -> u8 {
    if k == 1 || k == 4 {
        0x01
    } else {
        0x00
    }
}

/// The five bytes that one read of a constant table yields: payload bytes 1
/// to 5 of the response.
pub open spec fn table_chunk(frame: Seq<u8>) -> Seq<u8> {
    frame.subrange(4, 9)
}

/// One read of a constant table: the command, with the page as its first
/// payload byte.
pub open spec fn table_command(pre: DriverView, post: DriverView, code: u8, page: u8) -> bool {
    command_step(pre, post, code, seq![page], TX_PS2)
}

/// One read of a constant table went well: its command met a valid header,
/// and the bus rested.
pub open spec fn table_read(pre: DriverView, post: DriverView, code: u8, page: u8) -> bool {
    exists|mid: DriverView|
        {
            &&& #[trigger] table_command(pre, mid, code, page)
            &&& header_ok(mid.frame)
            &&& post == mid.slept()
        }
}

/// The tables that five reads yield, `trail[k + 1]` being the view after
/// read `k`.
pub open spec fn tables_of(trail: Seq<DriverView>) -> DeviceCInfoView {
    DeviceCInfoView {
        unknown1: table_chunk(trail[1].frame) + table_chunk(trail[2].frame),
        unknown2: table_chunk(trail[3].frame),
        unknown3: table_chunk(trail[4].frame) + table_chunk(trail[5].frame),
    }
}

/// The constant tables were read along `trail`, the views after each read
/// that went well, in order and starting with the view before the first.
/// Either all five reads went well and the result holds the tables, or the
/// first read that met an invalid header ended the reading.
pub open spec fn info_trail(
    pre: DriverView,
    post: DriverView,
    r: CResult<DeviceCInfo>,
    trail: Seq<DriverView>,
) -> bool {
    &&& 1 <= trail.len() <= table_reads() + 1
    &&& trail[0] == pre
    &&& forall|k: int|
        0 <= k < trail.len() - 1 ==> table_read(
            #[trigger] trail[k],
            trail[k + 1],
            table_code(k),
            table_page(k),
        )
    &&& if trail.len() == table_reads() + 1 {
        &&& post == trail.last()
        &&& r matches Ok(info)
        &&& info@ == tables_of(trail)
    } else {
        &&& table_command(
            trail.last(),
            post,
            table_code(trail.len() - 1),
            table_page(trail.len() - 1),
        )
        &&& !header_ok(post.frame)
        &&& r == Err::<DeviceCInfo, ControllerError>(ControllerError::BadHeader)
    }
}

/// The reading of the constant tables, as it runs in config mode.
pub open spec fn info_read(pre: DriverView, post: DriverView, r: CResult<DeviceCInfo>) -> bool {
    exists|trail: Seq<DriverView>| info_trail(pre, post, r, trail)
}

/// The constant tables were read in config mode.
pub open spec fn informed(pre: DriverView, post: DriverView, r: CResult<DeviceCInfo>) -> bool {
    exists|entered: DriverView, done: DriverView, inner: CResult<DeviceCInfo>|
        {
            &&& #[trigger] configured(pre, post, r, entered, done, inner)
            &&& header_ok(entered.frame) ==> info_read(entered.slept(), done, inner)
        }
}

} // verus!
