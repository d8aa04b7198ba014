//! Protocol constants, command codes and the typed values decoded from a
//! controller's responses.

use vstd::prelude::*;

verus! {

/// Number of header bytes in every frame.
pub const DATA_HEADER_SIZE: u8 = 3;

/// Largest payload a controller answers with.
pub const DATA_PAYLOAD_SIZE: u8 = 18;

/// Size of the frame buffer: header plus the largest payload.
pub const DATA_SIZE: usize = 21;

/// Filler byte sent to classic peripherals.
pub const TX_PSX: u8 = 0x00;

/// Filler byte sent to DualShock 2 class peripherals.
pub const TX_PS2: u8 = 0x5A;

/// Operation codes understood by the controller.
#[derive(Copy, Clone, Debug, PartialEq, Eq, Structural)]
pub enum Command {
    QueryDS2AnalogMode,
    MainPoll,
    Config,
    /// Config mode only.
    SetModeAndLock,
    /// Config mode only.
    QueryModelAndMode,
    /// Config mode only.
    GetConst1,
    /// Config mode only.
    GetConst2,
    /// Config mode only.
    GetConst3,
    /// Config mode only.
    MapMotors,
    /// Config mode only.
    SetupPoll,
}

impl Command {
    /// The byte that stands for this command on the wire.
    pub open spec fn spec_code(self) -> u8 {
        match self {
            Command::QueryDS2AnalogMode => 0x41,
            Command::MainPoll => 0x42,
            Command::Config => 0x43,
            Command::SetModeAndLock => 0x44,
            Command::QueryModelAndMode => 0x45,
            Command::GetConst1 => 0x46,
            Command::GetConst2 => 0x47,
            Command::GetConst3 => 0x4C,
            Command::MapMotors => 0x4D,
            Command::SetupPoll => 0x4F,
        }
    }

    #[verifier::when_used_as_spec(spec_code)]
    pub fn code(self) -> (c: u8)
        ensures
            c == self.spec_code(),
    {
        match self {
            Command::QueryDS2AnalogMode => 0x41,
            Command::MainPoll => 0x42,
            Command::Config => 0x43,
            Command::SetModeAndLock => 0x44,
            Command::QueryModelAndMode => 0x45,
            Command::GetConst1 => 0x46,
            Command::GetConst2 => 0x47,
            Command::GetConst3 => 0x4C,
            Command::MapMotors => 0x4D,
            Command::SetupPoll => 0x4F,
        }
    }
}

/// Upper four bits of a byte.
pub open spec fn high_nibble(v: u8) -> int {
    v as int / 16
}

/// Lower four bits of a byte.
pub open spec fn low_nibble(v: u8) -> int {
    v as int % 16
}

/// Masking a byte with `0xF0` keeps the upper nibble in place; masking with
/// `0x0F` leaves the lower nibble.
pub proof fn lemma_nibble_masks(v: u8)
    ensures
        (v & 0xF0) as int == 16 * high_nibble(v),
        (v & 0x0F) as int == low_nibble(v),
        0 <= high_nibble(v) < 16,
        0 <= low_nibble(v) < 16,
{
    assert(v & 0xF0 == 16 * (v / 16)) by (bit_vector);
    assert(v & 0x0F == v % 16) by (bit_vector);
}

/// Operating mode a controller reports in the identity nibble of its answer.
#[derive(Copy, Clone, Debug, PartialEq, Eq, Structural)]
pub enum DeviceMode {
    Unknown,
    Digital,
    Analog,
    DualShock2Native,
}

impl DeviceMode {
    /// The mode named by the upper nibble of an identity byte.
    pub open spec fn of_id(v: u8) -> DeviceMode {
        if high_nibble(v) == 0x4 {
            DeviceMode::Digital
        } else if high_nibble(v) == 0x7 {
            DeviceMode::Analog
        } else if high_nibble(v) == 0xF {
            DeviceMode::DualShock2Native
        } else {
            DeviceMode::Unknown
        }
    }

    /// The identity byte, lower nibble cleared, that reports this mode.
    pub open spec fn spec_code(self) -> u8 {
        match self {
            DeviceMode::Unknown => 0x00,
            DeviceMode::Digital => 0x40,
            DeviceMode::Analog => 0x70,
            DeviceMode::DualShock2Native => 0xF0,
        }
    }

    #[verifier::when_used_as_spec(spec_code)]
    pub fn code(self) -> (c: u8)
        ensures
            c == self.spec_code(),
    {
        match self {
            DeviceMode::Unknown => 0x00,
            DeviceMode::Digital => 0x40,
            DeviceMode::Analog => 0x70,
            DeviceMode::DualShock2Native => 0xF0,
        }
    }
}

impl From<u8> for DeviceMode {
    fn from(v: u8) -> (mode: Self) {
        proof {
            lemma_nibble_masks(v);
        }
        match v & 0xF0 {
            0x40 => DeviceMode::Digital,
            0x70 => DeviceMode::Analog,
            0xF0 => DeviceMode::DualShock2Native,
            _ => DeviceMode::Unknown,
        }
    }
}

impl vstd::std_specs::convert::FromSpecImpl<u8> for DeviceMode {
    open spec fn obeys_from_spec() -> bool {
        true
    }

    open spec fn from_spec(v: u8) -> Self {
        DeviceMode::of_id(v)
    }
}

/// Controller model, as named by the model byte of the identity query.
#[derive(Copy, Clone, Debug, PartialEq, Eq, Structural)]
pub enum DeviceType {
    Unknown,
    DualShock1,
    DualShock2,
}

impl DeviceType {
    /// The model named by a model byte.
    pub open spec fn of_model(v: u8) -> DeviceType {
        if v == 0x01 {
            DeviceType::DualShock1
        } else if v == 0x03 {
            DeviceType::DualShock2
        } else {
            DeviceType::Unknown
        }
    }

    /// The model byte of this model.
    pub open spec fn spec_code(self) -> u8 {
        match self {
            DeviceType::Unknown => 0x00,
            DeviceType::DualShock1 => 0x01,
            DeviceType::DualShock2 => 0x03,
        }
    }

    #[verifier::when_used_as_spec(spec_code)]
    pub fn code(self) -> (c: u8)
        ensures
            c == self.spec_code(),
    {
        match self {
            DeviceType::Unknown => 0x00,
            DeviceType::DualShock1 => 0x01,
            DeviceType::DualShock2 => 0x03,
        }
    }
}

impl From<u8> for DeviceType {
    fn from(v: u8) -> (model: Self) {
        match v {
            0x01 => DeviceType::DualShock1,
            0x03 => DeviceType::DualShock2,
            _ => DeviceType::Unknown,
        }
    }
}

impl vstd::std_specs::convert::FromSpecImpl<u8> for DeviceType {
    open spec fn obeys_from_spec() -> bool {
        true
    }

    open spec fn from_spec(v: u8) -> Self {
        DeviceType::of_model(v)
    }
}

/// The three constant tables of a controller. Their meaning is not
/// documented; the bytes are kept as they were read.
#[derive(Copy, Clone, Debug)]
pub struct DeviceCInfo {
    pub unknown2: [u8; 5],
    pub unknown1: [u8; 10],
    pub unknown3: [u8; 10],
}

/// The contents of the three constant tables, as byte sequences.
pub struct DeviceCInfoView {
    pub unknown2: Seq<u8>,
    pub unknown1: Seq<u8>,
    pub unknown3: Seq<u8>,
}

impl DeviceCInfoView {
    /// Tables of 5, 10 and 10 zero bytes.
    pub open spec fn zeroed() -> DeviceCInfoView {
        DeviceCInfoView {
            unknown2: Seq::new(5, |i: int| 0u8),
            unknown1: Seq::new(10, |i: int| 0u8),
            unknown3: Seq::new(10, |i: int| 0u8),
        }
    }
}

impl View for DeviceCInfo {
    type V = DeviceCInfoView;

    open spec fn view(&self) -> DeviceCInfoView {
        DeviceCInfoView {
            unknown2: self.unknown2@,
            unknown1: self.unknown1@,
            unknown3: self.unknown3@,
        }
    }
}

impl Default for DeviceCInfo {
    fn default() -> (info: Self)
        ensures
            info@ == DeviceCInfoView::zeroed(),
    {
        let info = DeviceCInfo { unknown2: [0u8; 5], unknown1: [0u8; 10], unknown3: [0u8; 10] };
        assert(info.unknown2@ =~= DeviceCInfoView::zeroed().unknown2);
        assert(info.unknown1@ =~= DeviceCInfoView::zeroed().unknown1);
        assert(info.unknown3@ =~= DeviceCInfoView::zeroed().unknown3);
        info
    }
}

/// Whether the most recent operation on the controller succeeded.
#[derive(Copy, Clone, Debug, PartialEq, Eq, Structural)]
pub enum DeviceState {
    ConnectionError,
    Connected,
}

impl DeviceState {
    /// `Connected` for a success, `ConnectionError` for any error.
    pub open spec fn of_result<T>(r: CResult<T>) -> DeviceState {
        if r is Ok {
            DeviceState::Connected
        } else {
            DeviceState::ConnectionError
        }
    }
}

impl<T> From<CResult<T>> for DeviceState {
    fn from(r: CResult<T>) -> (state: Self) {
        match r {
            Ok(_) => DeviceState::Connected,
            _ => DeviceState::ConnectionError,
        }
    }
}

impl<T> vstd::std_specs::convert::FromSpecImpl<CResult<T>> for DeviceState {
    open spec fn obeys_from_spec() -> bool {
        true
    }

    open spec fn from_spec(r: CResult<T>) -> Self {
        DeviceState::of_result(r)
    }
}

/// Result of an operation on the controller.
pub type CResult<T> = Result<T, ControllerError>;

/// Why an operation on the controller failed.
#[derive(Copy, Clone, Debug, PartialEq, Eq, Structural)]
pub enum ControllerError {
    /// No valid header came back within the retry budget.
    NoResponse,
    /// A header failed validation during a session.
    BadHeader,
    /// Reserved for internal consistency failures.
    LogicError,
}

} // verus!
