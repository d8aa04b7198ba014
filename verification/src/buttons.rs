//! Buttons, button masks and analog stick readings.

use vstd::prelude::*;

verus! {

/// A control of the gamepad, or a named group of controls. Each one stands
/// for a mask over the 16-bit button field, which [`Button::mask`] and the
/// conversion to `u16` give. A cast with `as` gives the position of the name
/// in this list, not the mask.
#[derive(Copy, Clone, Debug, PartialEq, Eq, Structural)]
pub enum Button {
    Select,
    LJoyBtn,
    RJoyBtn,
    Start,
    Up,
    Right,
    Down,
    Left,
    LTrigger,
    RTrigger,
    LButton,
    RButton,
    Triangle,
    Circle,
    Cross,
    Square,
    /// Every control.
    All,
    /// The four direction keys.
    Arrows,
}

impl Button {
    /// The bits of the button field that belong to this button.
    pub open spec fn spec_mask(self) -> u16 {
        match self {
            Button::Select => 0x0001,
            Button::LJoyBtn => 0x0002,
            Button::RJoyBtn => 0x0004,
            Button::Start => 0x0008,
            Button::Up => 0x0010,
            Button::Right => 0x0020,
            Button::Down => 0x0040,
            Button::Left => 0x0080,
            Button::LTrigger => 0x0100,
            Button::RTrigger => 0x0200,
            Button::LButton => 0x0400,
            Button::RButton => 0x0800,
            Button::Triangle => 0x1000,
            Button::Circle => 0x2000,
            Button::Cross => 0x4000,
            Button::Square => 0x8000,
            Button::All => 0xFFFF,
            Button::Arrows => 0x00F0,
        }
    }

    /// Whether this is one control rather than a group; a single control has
    /// exactly one bit in its mask.
    pub open spec fn is_single(self) -> bool {
        self != Button::All && self != Button::Arrows
    }

    /// Position of the bit of a single control in the button field.
    pub open spec fn bit_index(self) -> u16
        recommends
            self.is_single(),
    {
        match self {
            Button::Select => 0,
            Button::LJoyBtn => 1,
            Button::RJoyBtn => 2,
            Button::Start => 3,
            Button::Up => 4,
            Button::Right => 5,
            Button::Down => 6,
            Button::Left => 7,
            Button::LTrigger => 8,
            Button::RTrigger => 9,
            Button::LButton => 10,
            Button::RButton => 11,
            Button::Triangle => 12,
            Button::Circle => 13,
            Button::Cross => 14,
            Button::Square => 15,
            _ => 0,
        }
    }

    #[verifier::when_used_as_spec(spec_mask)]
    pub fn mask(self) -> (m: u16)
        ensures
            m == self.spec_mask(),
    {
        match self {
            Button::Select => 0x0001,
            Button::LJoyBtn => 0x0002,
            Button::RJoyBtn => 0x0004,
            Button::Start => 0x0008,
            Button::Up => 0x0010,
            Button::Right => 0x0020,
            Button::Down => 0x0040,
            Button::Left => 0x0080,
            Button::LTrigger => 0x0100,
            Button::RTrigger => 0x0200,
            Button::LButton => 0x0400,
            Button::RButton => 0x0800,
            Button::Triangle => 0x1000,
            Button::Circle => 0x2000,
            Button::Cross => 0x4000,
            Button::Square => 0x8000,
            Button::All => 0xFFFF,
            Button::Arrows => 0x00F0,
        }
    }
}

impl core::ops::BitOr<Button> for Button {
    type Output = u16;

    /// The mask of both buttons.
    fn bitor(self, rhs: Button) -> (mask: u16) {
        self.mask() | rhs.mask()
    }
}

impl vstd::std_specs::ops::BitOrSpecImpl<Button> for Button {
    open spec fn obeys_bitor_spec() -> bool {
        true
    }

    open spec fn bitor_req(self, rhs: Button) -> bool {
        true
    }

    open spec fn bitor_spec(self, rhs: Button) -> u16 {
        self.spec_mask() | rhs.spec_mask()
    }
}

impl core::ops::BitOr<u16> for Button {
    type Output = u16;

    /// The mask of the button, added to another mask.
    fn bitor(self, rhs: u16) -> (mask: u16) {
        self.mask() | rhs
    }
}

impl vstd::std_specs::ops::BitOrSpecImpl<u16> for Button {
    open spec fn obeys_bitor_spec() -> bool {
        true
    }

    open spec fn bitor_req(self, rhs: u16) -> bool {
        true
    }

    open spec fn bitor_spec(self, rhs: u16) -> u16 {
        self.spec_mask() | rhs
    }
}

impl core::ops::BitOr<Button> for u16 {
    type Output = u16;

    /// A mask with the mask of the button added.
    fn bitor(self, rhs: Button) -> (mask: u16) {
        self | rhs.mask()
    }
}

impl vstd::std_specs::ops::BitOrSpecImpl<Button> for u16 {
    open spec fn obeys_bitor_spec() -> bool {
        true
    }

    open spec fn bitor_req(self, rhs: Button) -> bool {
        true
    }

    open spec fn bitor_spec(self, rhs: Button) -> u16 {
        self | rhs.spec_mask()
    }
}

impl core::ops::BitAnd<u16> for Button {
    type Output = u16;

    /// The bits of a mask that belong to the button.
    fn bitand(self, rhs: u16) -> (mask: u16) {
        self.mask() & rhs
    }
}

impl vstd::std_specs::ops::BitAndSpecImpl<u16> for Button {
    open spec fn obeys_bitand_spec() -> bool {
        true
    }

    open spec fn bitand_req(self, rhs: u16) -> bool {
        true
    }

    open spec fn bitand_spec(self, rhs: u16) -> u16 {
        self.spec_mask() & rhs
    }
}

impl core::ops::BitAnd<Button> for Button {
    type Output = u16;

    /// Always the empty mask: two buttons are taken to share no control.
    fn bitand(self, _rhs: Button) -> (mask: u16) {
        0x0000
    }
}

impl vstd::std_specs::ops::BitAndSpecImpl<Button> for Button {
    open spec fn obeys_bitand_spec() -> bool {
        true
    }

    open spec fn bitand_req(self, rhs: Button) -> bool {
        true
    }

    open spec fn bitand_spec(self, rhs: Button) -> u16 {
        0x0000
    }
}

impl PartialEq<u16> for Button {
    /// Whether a mask is exactly the mask of the button.
    fn eq(&self, rhs: &u16) -> (same: bool) {
        self.mask() == *rhs
    }
}

impl vstd::std_specs::cmp::PartialEqSpecImpl<u16> for Button {
    open spec fn obeys_eq_spec() -> bool {
        true
    }

    open spec fn eq_spec(&self, rhs: &u16) -> bool {
        self.spec_mask() == *rhs
    }
}

impl PartialEq<Button> for u16 {
    /// Whether this mask is exactly the mask of the button.
    fn eq(&self, rhs: &Button) -> (same: bool) {
        *self == rhs.mask()
    }
}

impl vstd::std_specs::cmp::PartialEqSpecImpl<Button> for u16 {
    open spec fn obeys_eq_spec() -> bool {
        true
    }

    open spec fn eq_spec(&self, rhs: &Button) -> bool {
        *self == rhs.spec_mask()
    }
}

impl From<Button> for u16 {
    /// The mask of the button.
    fn from(v: Button) -> (mask: u16) {
        v.mask()
    }
}

impl vstd::std_specs::convert::FromSpecImpl<Button> for u16 {
    open spec fn obeys_from_spec() -> bool {
        true
    }

    open spec fn from_spec(v: Button) -> u16 {
        v.spec_mask()
    }
}

/// The controls of a guitar peripheral, which reports them in the same
/// button field.
#[derive(Copy, Clone, Debug, PartialEq, Eq, Structural)]
pub enum GuitarButton {
    UpStrum,
    RightStrum,
    DownStrum,
    LeftStrum,
    StartPower,
    GreenFret,
    YellowFret,
    RedFret,
    BlueFret,
    OrangeFret,
}

impl GuitarButton {
    /// The bit of the button field that belongs to this control.
    pub open spec fn spec_mask(self) -> u16 {
        match self {
            GuitarButton::UpStrum => 0x0010,
            GuitarButton::RightStrum => 0x0020,
            GuitarButton::DownStrum => 0x0040,
            GuitarButton::LeftStrum => 0x0080,
            GuitarButton::StartPower => 0x0100,
            GuitarButton::GreenFret => 0x0200,
            GuitarButton::YellowFret => 0x1000,
            GuitarButton::RedFret => 0x2000,
            GuitarButton::BlueFret => 0x4000,
            GuitarButton::OrangeFret => 0x8000,
        }
    }

    #[verifier::when_used_as_spec(spec_mask)]
    pub fn mask(self) -> (m: u16)
        ensures
            m == self.spec_mask(),
    {
        match self {
            GuitarButton::UpStrum => 0x0010,
            GuitarButton::RightStrum => 0x0020,
            GuitarButton::DownStrum => 0x0040,
            GuitarButton::LeftStrum => 0x0080,
            GuitarButton::StartPower => 0x0100,
            GuitarButton::GreenFret => 0x0200,
            GuitarButton::YellowFret => 0x1000,
            GuitarButton::RedFret => 0x2000,
            GuitarButton::BlueFret => 0x4000,
            GuitarButton::OrangeFret => 0x8000,
        }
    }
}

/// Button field that stands for "no valid reading": every bit released.
pub const NO_BUTTONS: u16 = 0xFFFF;

/// Bit `i` of a button field or mask, bit 0 being the least significant.
pub open spec fn bit16(x: u16, i: u16) -> bool {
    (x >> i) & 1 == 1
}

/// Whether control `i` is pressed in a snapshot of the button field. The
/// field is active low: a cleared bit is a pressed control.
pub open spec fn held(snapshot: u16, i: u16) -> bool {
    !bit16(snapshot, i)
}

/// Whether some control of `mask` is pressed in `snapshot`.
pub open spec fn any_held(snapshot: u16, mask: u16) -> bool {
    exists|i: u16| i < 16 && #[trigger] bit16(mask, i) && held(snapshot, i)
}

/// Whether every control of `mask` is pressed in `snapshot`.
pub open spec fn all_held(snapshot: u16, mask: u16) -> bool {
    forall|i: u16| i < 16 && #[trigger] bit16(mask, i) ==> held(snapshot, i)
}

/// Whether some control of `mask` differs between two snapshots.
pub open spec fn any_changed(prev: u16, current: u16, mask: u16) -> bool {
    exists|i: u16| i < 16 && #[trigger] bit16(mask, i) && bit16(prev, i) != bit16(current, i)
}

/// Whether some control of `mask` changed between two snapshots while some
/// control of `mask` is pressed in the current one. For a single control:
/// it went from released to pressed.
pub open spec fn went_down(prev: u16, current: u16, mask: u16) -> bool {
    any_changed(prev, current, mask) && any_held(current, mask)
}

/// Whether some control of `mask` changed between two snapshots while some
/// control of `mask` was pressed in the previous one. For a single control:
/// it went from pressed to released.
pub open spec fn went_up(prev: u16, current: u16, mask: u16) -> bool {
    any_changed(prev, current, mask) && any_held(prev, mask)
}

/// The controls of `filter` that are pressed in `snapshot`, as a mask.
pub open spec fn held_mask(snapshot: u16, filter: u16) -> u16 {
    !snapshot & filter
}

/// A mask that is not zero has a bit set.
pub proof fn lemma_some_bit(x: u16) -> (i: u16)
    requires
        x != 0,
    ensures
        i < 16,
        bit16(x, i),
{
    assert(bit16(x, 0) || bit16(x, 1) || bit16(x, 2) || bit16(x, 3) || bit16(x, 4) || bit16(x, 5)
        || bit16(x, 6) || bit16(x, 7) || bit16(x, 8) || bit16(x, 9) || bit16(x, 10) || bit16(
        x,
        11,
    ) || bit16(x, 12) || bit16(x, 13) || bit16(x, 14) || bit16(x, 15)) by (bit_vector)
        requires
            x != 0,
    ;
    choose|i: u16| i < 16 && bit16(x, i)
}

/// A mask with a bit set is not zero.
pub proof fn lemma_bit_nonzero(x: u16, i: u16)
    by (bit_vector)
    requires
        i < 16,
        bit16(x, i),
    ensures
        x != 0,
{
}

/// Bit by bit: a control is in `held_mask` when it is in the filter and
/// pressed.
pub proof fn lemma_held_mask_bit(snapshot: u16, filter: u16, i: u16)
    by (bit_vector)
    requires
        i < 16,
    ensures
        bit16(held_mask(snapshot, filter), i) == (bit16(filter, i) && held(snapshot, i)),
{
}

/// Bit by bit: a control is in the masked difference of two snapshots when
/// it is in the mask and differs between them.
pub proof fn lemma_changed_mask_bit(prev: u16, current: u16, mask: u16, i: u16)
    by (bit_vector)
    requires
        i < 16,
    ensures
        bit16((prev ^ current) & mask, i) == (bit16(mask, i) && bit16(prev, i) != bit16(
            current,
            i,
        )),
{
}

/// Some control of a mask is pressed exactly when the mask of pressed
/// controls is not empty.
pub proof fn lemma_any_held(snapshot: u16, mask: u16)
    ensures
        any_held(snapshot, mask) <==> held_mask(snapshot, mask) != 0,
{
    let x = held_mask(snapshot, mask);
    if x != 0 {
        let i = lemma_some_bit(x);
        lemma_held_mask_bit(snapshot, mask, i);
    }
    if any_held(snapshot, mask) {
        let i = choose|i: u16| i < 16 && #[trigger] bit16(mask, i) && held(snapshot, i);
        lemma_held_mask_bit(snapshot, mask, i);
        lemma_bit_nonzero(x, i);
    }
}

/// Every control of a mask is pressed exactly when the mask of pressed
/// controls is the whole mask.
pub proof fn lemma_all_held(snapshot: u16, mask: u16)
    ensures
        all_held(snapshot, mask) <==> held_mask(snapshot, mask) == mask,
{
    let x = held_mask(snapshot, mask);
    if x == mask {
        assert forall|i: u16| i < 16 && #[trigger] bit16(mask, i) implies held(snapshot, i) by {
            lemma_held_mask_bit(snapshot, mask, i);
        }
    } else {
        let missing = mask & snapshot;
        assert(missing != 0) by (bit_vector)
            requires
                missing == mask & snapshot,
                x == !snapshot & mask,
                x != mask,
        ;
        let i = lemma_some_bit(missing);
        assert(bit16(mask, i) && bit16(snapshot, i)) by (bit_vector)
            requires
                i < 16,
                missing == mask & snapshot,
                bit16(missing, i),
        ;
    }
}

/// Some control of a mask differs between two snapshots exactly when the
/// masked difference of the snapshots is not empty.
pub proof fn lemma_any_changed(prev: u16, current: u16, mask: u16)
    ensures
        any_changed(prev, current, mask) <==> (prev ^ current) & mask != 0,
{
    let x = (prev ^ current) & mask;
    if x != 0 {
        let i = lemma_some_bit(x);
        lemma_changed_mask_bit(prev, current, mask, i);
    }
    if any_changed(prev, current, mask) {
        let i = choose|i: u16|
            i < 16 && #[trigger] bit16(mask, i) && bit16(prev, i) != bit16(current, i);
        lemma_changed_mask_bit(prev, current, mask, i);
        lemma_bit_nonzero(x, i);
    }
}

/// The mask of a single control has the bit of that control and no other.
pub proof fn lemma_single_mask(button: Button, i: u16)
    requires
        button.is_single(),
        i < 16,
    ensures
        button.bit_index() < 16,
        bit16(button.spec_mask(), i) <==> i == button.bit_index(),
{
    let at = button.bit_index();
    assert(1u16 << 0u16 == 0x0001 && 1u16 << 1u16 == 0x0002 && 1u16 << 2u16 == 0x0004 && 1u16
        << 3u16 == 0x0008 && 1u16 << 4u16 == 0x0010 && 1u16 << 5u16 == 0x0020 && 1u16 << 6u16
        == 0x0040 && 1u16 << 7u16 == 0x0080 && 1u16 << 8u16 == 0x0100 && 1u16 << 9u16 == 0x0200
        && 1u16 << 10u16 == 0x0400 && 1u16 << 11u16 == 0x0800 && 1u16 << 12u16 == 0x1000 && 1u16
        << 13u16 == 0x2000 && 1u16 << 14u16 == 0x4000 && 1u16 << 15u16 == 0x8000)
        by (bit_vector);
    assert(((1u16 << at) >> i) & 1 == 1 <==> i == at) by (bit_vector)
        requires
            at < 16,
            i < 16,
    ;
}

/// A single control is among the pressed controls of its mask exactly when
/// its own bit is cleared in the snapshot.
pub proof fn lemma_single_held(snapshot: u16, button: Button)
    requires
        button.is_single(),
    ensures
        any_held(snapshot, button.spec_mask()) <==> held(snapshot, button.bit_index()),
        all_held(snapshot, button.spec_mask()) <==> held(snapshot, button.bit_index()),
{
    let at = button.bit_index();
    lemma_single_mask(button, at);
    assert forall|i: u16| i < 16 implies (bit16(button.spec_mask(), i) <==> i == at) by {
        lemma_single_mask(button, i);
    }
}

/// A single control is among the changed controls of its mask exactly when
/// its own bit differs between the two snapshots.
pub proof fn lemma_single_changed(prev: u16, current: u16, button: Button)
    requires
        button.is_single(),
    ensures
        any_changed(prev, current, button.spec_mask()) <==> bit16(prev, button.bit_index())
            != bit16(current, button.bit_index()),
{
    let at = button.bit_index();
    lemma_single_mask(button, at);
    assert forall|i: u16| i < 16 implies (bit16(button.spec_mask(), i) <==> i == at) by {
        lemma_single_mask(button, i);
    }
}

/// A single control that went down has changed, is pressed now and was
/// released before; one that went up has changed, was pressed before and is
/// released now.
pub proof fn lemma_single_edges(prev: u16, current: u16, button: Button)
    requires
        button.is_single(),
    ensures
        went_down(prev, current, button.spec_mask()) <==> !held(prev, button.bit_index()) && held(
            current,
            button.bit_index(),
        ),
        went_up(prev, current, button.spec_mask()) <==> held(prev, button.bit_index()) && !held(
            current,
            button.bit_index(),
        ),
{
    lemma_single_changed(prev, current, button);
    lemma_single_held(prev, button);
    lemma_single_held(current, button);
}

/// The controls of the union of two masks are all pressed exactly when
/// those of each mask are.
pub proof fn lemma_all_held_union(snapshot: u16, a: u16, b: u16)
    ensures
        all_held(snapshot, a | b) <==> all_held(snapshot, a) && all_held(snapshot, b),
{
    assert forall|i: u16| i < 16 implies (bit16(a | b, i) <==> bit16(a, i) || bit16(b, i)) by {
        assert(((a | b) >> i) & 1 == 1 <==> (a >> i) & 1 == 1 || (b >> i) & 1 == 1)
            by (bit_vector)
            requires
                i < 16,
        ;
    }
    if all_held(snapshot, a) && all_held(snapshot, b) {
        assert forall|i: u16| i < 16 && #[trigger] bit16(a | b, i) implies held(snapshot, i) by {
            assert(bit16(a, i) || bit16(b, i));
        }
    }
}

/// In the snapshot that stands for "no reading" no control is pressed.
pub proof fn lemma_no_buttons_held(mask: u16)
    ensures
        !any_held(NO_BUTTONS, mask),
        held_mask(NO_BUTTONS, mask) == 0,
{
    assert(!0xFFFFu16 & mask == 0) by (bit_vector);
    lemma_any_held(NO_BUTTONS, mask);
}

/// Value of a stick axis at rest, and of every axis when no analog data is
/// at hand.
pub const STICK_CENTER: u8 = 128;

/// Positions of the two analog sticks.
#[derive(Copy, Clone, Debug, PartialEq, Eq, Structural)]
pub struct AnalogSticks {
    pub lx: u8,
    pub ly: u8,
    pub rx: u8,
    pub ry: u8,
}

impl AnalogSticks {
    /// Both sticks at rest.
    pub open spec fn centered() -> AnalogSticks {
        AnalogSticks { lx: STICK_CENTER, ly: STICK_CENTER, rx: STICK_CENTER, ry: STICK_CENTER }
    }

    pub fn new(lx: u8, ly: u8, rx: u8, ry: u8) -> (sticks: Self)
        ensures
            sticks == (AnalogSticks { lx, ly, rx, ry }),
    {
        AnalogSticks { lx, ly, rx, ry }
    }
}

impl Default for AnalogSticks {
    fn default() -> (sticks: Self)
        ensures
            sticks == AnalogSticks::centered(),
    {
        AnalogSticks::new(STICK_CENTER, STICK_CENTER, STICK_CENTER, STICK_CENTER)
    }
}

} // verus!
