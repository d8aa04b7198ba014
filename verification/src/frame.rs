//! The frame buffer: the bytes of one response, and how its fields are read.
//!
//! A response is a three byte header followed by a payload. Byte 0 is the
//! acknowledge byte `0xFF`. Byte 1 carries the identity of the peripheral in
//! its upper nibble and the payload length, in 16-bit words, in its lower
//! nibble. Byte 2 is a mode status. The payload starts at byte 3.

use vstd::prelude::*;
use crate::buttons::AnalogSticks;
use crate::commands::{high_nibble, lemma_nibble_masks, low_nibble, DATA_SIZE};

verus! {

/// Acknowledge byte that opens every valid response.
pub const ACK: u8 = 0xFF;

/// The identity nibble of a response.
pub open spec fn identity(frame: Seq<u8>) -> int {
    high_nibble(frame[1])
}

/// The word count of a response: its payload length in 16-bit words.
pub open spec fn word_count(frame: Seq<u8>) -> int {
    low_nibble(frame[1])
}

/// Whether the identity nibble names a known peripheral mode: digital,
/// analog or config.
pub open spec fn known_identity(frame: Seq<u8>) -> bool {
    identity(frame) == 0x4 || identity(frame) == 0x7 || identity(frame) == 0xF
}

/// Whether a response header is valid: it opens with the acknowledge byte,
/// its word count is 1, 3 or 9, and its identity is known.
pub open spec fn header_ok(frame: Seq<u8>) -> bool {
    &&& frame[0] == ACK
    &&& (word_count(frame) == 1 || word_count(frame) == 3 || word_count(frame) == 9)
    &&& known_identity(frame)
}

/// Exactly nine second bytes make a valid header behind the acknowledge
/// byte: an identity of 4, 7 or F with a word count of 1, 3 or 9. A valid
/// header announces a payload of twice its word count in bytes.
pub proof fn lemma_valid_headers(frame: Seq<u8>)
    ensures
        header_ok(frame) <==> frame[0] == ACK && (frame[1] == 0x41 || frame[1] == 0x43 || frame[1]
            == 0x49 || frame[1] == 0x71 || frame[1] == 0x73 || frame[1] == 0x79 || frame[1] == 0xF1
            || frame[1] == 0xF3 || frame[1] == 0xF9),
        header_ok(frame) ==> payload_len(frame) == 2 * word_count(frame),
{
}

/// Payload length in bytes that a response announces. A word count other
/// than 1 or 3 is read as the longest payload.
pub open spec fn payload_len(frame: Seq<u8>) -> int {
    if word_count(frame) == 1 {
        2
    } else if word_count(frame) == 3 {
        6
    } else {
        18
    }
}

/// The button field of a response: payload bytes 0 and 1, low byte first.
pub open spec fn buttons_of(frame: Seq<u8>) -> u16 {
    (frame[3] as int + 256 * frame[4] as int) as u16
}

/// The stick positions of a response: payload bytes 2 to 5 hold right-x,
/// right-y, left-x and left-y.
pub open spec fn sticks_of(frame: Seq<u8>) -> AnalogSticks {
    AnalogSticks { lx: frame[7], ly: frame[8], rx: frame[5], ry: frame[6] }
}

/// The intensity byte sent for a requested motor intensity: zero stays zero,
/// anything else is scaled into `64..=255`.
pub open spec fn normalize_motor(value: u8) -> u8 {
    if value == 0 {
        0
    } else {
        (64 + value as int * 191 / 255) as u8
    }
}

/// Motor normalization keeps the two ends of the range and never decreases
/// as the requested intensity grows.
pub proof fn lemma_normalize_motor_monotonic(a: u8, b: u8)
    requires
        a <= b,
    ensures
        normalize_motor(a) <= normalize_motor(b),
        normalize_motor(0) == 0,
        normalize_motor(255) == 255,
{
}

/// Every nonzero intensity is sent as at least 64.
pub proof fn lemma_normalize_motor_range(value: u8)
    ensures
        value != 0 ==> 64 <= normalize_motor(value),
        normalize_motor(value) == 0 <==> value == 0,
{
}

/// Buffer for the bytes of one response.
pub struct DeviceBuffer {
    pub data: [u8; DATA_SIZE],
}

impl View for DeviceBuffer {
    type V = Seq<u8>;

    open spec fn view(&self) -> Seq<u8> {
        self.data@
    }
}

impl DeviceBuffer {
    /// The identity of the peripheral: the upper nibble of byte 1, left in
    /// place (`0x40` digital, `0x70` analog, `0xF0` config).
    pub fn rx_data_id(&self) -> (id: u8)
        ensures
            id == 16 * identity(self@),
    {
        proof {
            lemma_nibble_masks(self.data[1]);
        }
        self.data[1] & 0xF0
    }

    /// The payload length in 16-bit words: the lower nibble of byte 1.
    pub fn rx_data_word_count(&self) -> (words: u8)
        ensures
            words == word_count(self@),
    {
        proof {
            lemma_nibble_masks(self.data[1]);
        }
        self.data[1] & 0x0F
    }

    /// The model byte of an identity query.
    pub fn rx_data_model(&self) -> (model: u8)
        ensures
            model == self@[3],
    {
        self.data[3]
    }

    /// The mode byte of an identity query.
    pub fn rx_data_mode(&self) -> (mode: u8)
        ensures
            mode == self@[5],
    {
        self.data[5]
    }

    pub fn rx_analog_sticks(&self) -> (sticks: AnalogSticks)
        ensures
            sticks == sticks_of(self@),
    {
        AnalogSticks::new(self.data[7], self.data[8], self.data[5], self.data[6])
    }

    /// The payload length in bytes.
    pub fn rx_data_len(&self) -> (len: u8)
        ensures
            len == payload_len(self@),
    {
        match self.rx_data_word_count() {
            1 => 2,
            3 => 6,
            _ => 18,
        }
    }

    pub fn rx_is_header_success(&self) -> (ok: bool)
        ensures
            ok == header_ok(self@),
    {
        let wc: u8 = self.rx_data_word_count();
        if wc != 1 && wc != 3 && wc != 9 {
            return false;
        }
        ACK == self.data[0] && self.rx_is_any_mode()
    }

    pub fn rx_is_any_mode(&self) -> (known: bool)
        ensures
            known == known_identity(self@),
    {
        match self.rx_data_id() {
            0x40 | 0x70 | 0xF0 => true,
            _ => false,
        }
    }

    pub fn rx_is_analog_mode(&self) -> (analog: bool)
        ensures
            analog == (identity(self@) == 0x7),
    {
        0x70 == self.rx_data_id()
    }

    /// The five bytes of a constant table read: payload bytes 1 to 5.
    pub fn rx_table_chunk(&self) -> (chunk: [u8; 5])
        ensures
            chunk@ == self@.subrange(4, 9),
    {
        let chunk: [u8; 5] = [self.data[4], self.data[5], self.data[6], self.data[7], self.data[8]];
        chunk
    }

    pub fn rx_buttons(&self) -> (buttons: u16)
        ensures
            buttons == buttons_of(self@),
    {
        let lo: u8 = self.data[3];
        let hi: u8 = self.data[4];
        assert(((hi as u16) << 8) | (lo as u16) == lo as u16 + 256 * (hi as u16)) by (bit_vector);
        ((hi as u16) << 8) | (lo as u16)
    }

    pub fn tx_normolize_motor(motor_value: u8) -> (sent: u8)
        ensures
            sent == normalize_motor(motor_value),
    {
        let span: u16 = 0xff - 0x40;
        match motor_value {
            0x00 => 0x00,
            _ => (0x40 + (motor_value as u16) * span / 0xff) as u8,
        }
    }
}

impl Default for DeviceBuffer {
    fn default() -> (buffer: Self)
        ensures
            buffer@ == Seq::new(DATA_SIZE as nat, |i: int| 0u8),
    {
        let buffer = DeviceBuffer { data: [0u8; DATA_SIZE] };
        buffer
    }
}

} // verus!
