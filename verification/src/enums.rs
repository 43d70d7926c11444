//! The controller's vocabulary: opcodes, MADCTL flags, rotations and board
//! variants.

use vstd::prelude::*;

verus! {

/// A controller opcode. Each is a single byte, sent with DC low.
#[derive(Clone, Copy, Debug, PartialEq, Eq, Structural)]
pub enum Command {
    SoftReset,
    SleepIn,
    SleepOut,
    NormalDisplayModeOn,
    DisplayInversionOff,
    DisplayOn,
    IdleModeOff,
    ColumnAddressSet,
    RowAddressSet,
    MemoryWrite,
    InterfacePixelFormat,
    MemoryAccessControl,
    InterfaceModeControl,
    FrameRateControlNormal,
    FrameRateControlIdle,
    FrameRateControlPartial,
    DisplayInversionControl,
    DisplayFunctionControl,
    PowerControl1,
    PowerControl2,
    PowerControl3,
    PowerControl4,
    PowerControl5,
    VcomControl1,
    PositiveGammaControl,
    NegativeGammaControl,
    DigitalGammaControl1,
}

impl Command {
    /// The byte that stands for this command on the wire.
    pub open spec fn spec_opcode(self) -> u8 {
        match self {
            Command::SoftReset => 0x01,
            Command::SleepIn => 0x10,
            Command::SleepOut => 0x11,
            Command::NormalDisplayModeOn => 0x13,
            Command::DisplayInversionOff => 0x20,
            Command::DisplayOn => 0x29,
            Command::IdleModeOff => 0x38,
            Command::ColumnAddressSet => 0x2A,
            Command::RowAddressSet => 0x2B,
            Command::MemoryWrite => 0x2C,
            Command::InterfacePixelFormat => 0x3A,
            Command::MemoryAccessControl => 0x36,
            Command::InterfaceModeControl => 0xB0,
            Command::FrameRateControlNormal => 0xB1,
            Command::FrameRateControlIdle => 0xB2,
            Command::FrameRateControlPartial => 0xB3,
            Command::DisplayInversionControl => 0xB4,
            Command::DisplayFunctionControl => 0xB6,
            Command::PowerControl1 => 0xC0,
            Command::PowerControl2 => 0xC1,
            Command::PowerControl3 => 0xC2,
            Command::PowerControl4 => 0xC3,
            Command::PowerControl5 => 0xC4,
            Command::VcomControl1 => 0xC5,
            Command::PositiveGammaControl => 0xE0,
            Command::NegativeGammaControl => 0xE1,
            Command::DigitalGammaControl1 => 0xE2,
        }
    }

    /// The byte that stands for this command on the wire.
    #[verifier::when_used_as_spec(spec_opcode)]
    pub fn opcode(self) -> (byte: u8)
        ensures
            byte == self.spec_opcode(),
    {
        match self {
            Command::SoftReset => 0x01,
            Command::SleepIn => 0x10,
            Command::SleepOut => 0x11,
            Command::NormalDisplayModeOn => 0x13,
            Command::DisplayInversionOff => 0x20,
            Command::DisplayOn => 0x29,
            Command::IdleModeOff => 0x38,
            Command::ColumnAddressSet => 0x2A,
            Command::RowAddressSet => 0x2B,
            Command::MemoryWrite => 0x2C,
            Command::InterfacePixelFormat => 0x3A,
            Command::MemoryAccessControl => 0x36,
            Command::InterfaceModeControl => 0xB0,
            Command::FrameRateControlNormal => 0xB1,
            Command::FrameRateControlIdle => 0xB2,
            Command::FrameRateControlPartial => 0xB3,
            Command::DisplayInversionControl => 0xB4,
            Command::DisplayFunctionControl => 0xB6,
            Command::PowerControl1 => 0xC0,
            Command::PowerControl2 => 0xC1,
            Command::PowerControl3 => 0xC2,
            Command::PowerControl4 => 0xC3,
            Command::PowerControl5 => 0xC4,
            Command::VcomControl1 => 0xC5,
            Command::PositiveGammaControl => 0xE0,
            Command::NegativeGammaControl => 0xE1,
            Command::DigitalGammaControl1 => 0xE2,
        }
    }

    /// No two commands share an opcode.
    pub proof fn lemma_opcode_is_injective(self, other: Command)
        requires
            self.spec_opcode() == other.spec_opcode(),
        ensures
            self == other,
    {
    }
}

/// Row address order.
pub const MADCTL_MY: u8 = 0x80;

/// Column address order.
pub const MADCTL_MX: u8 = 0x40;

/// Row/column exchange.
pub const MADCTL_MV: u8 = 0x20;

/// Vertical refresh order.
pub const MADCTL_ML: u8 = 0x10;

/// Blue-green-red subpixel order.
pub const MADCTL_BGR: u8 = 0x08;

/// Horizontal refresh order.
pub const MADCTL_MH: u8 = 0x04;

/// Red-green-blue subpixel order: no bit set.
pub const MADCTL_RGB: u8 = 0x00;

/// A flag of the Memory Access Control register.
#[derive(Clone, Copy, Debug, PartialEq, Eq, Structural)]
pub enum ST7735MadControl {
    /// Row address order.
    MadctlMy,
    /// Column address order.
    MadctlMx,
    /// Row/column exchange.
    MadctlMv,
    /// Vertical refresh order.
    MadctlMl,
    /// Blue-green-red subpixel order.
    MadctlBgr,
    /// Horizontal refresh order.
    MadctlMh,
    /// Red-green-blue subpixel order: no bit set.
    MadctlRgb,
}

impl ST7735MadControl {
    /// The flag's bit in the register.
    pub open spec fn spec_bits(self) -> u8 {
        match self {
            ST7735MadControl::MadctlMy => MADCTL_MY,
            ST7735MadControl::MadctlMx => MADCTL_MX,
            ST7735MadControl::MadctlMv => MADCTL_MV,
            ST7735MadControl::MadctlMl => MADCTL_ML,
            ST7735MadControl::MadctlBgr => MADCTL_BGR,
            ST7735MadControl::MadctlMh => MADCTL_MH,
            ST7735MadControl::MadctlRgb => MADCTL_RGB,
        }
    }

    /// The flag's bit in the register.
    #[verifier::when_used_as_spec(spec_bits)]
    pub fn bits(self) -> (byte: u8)
        ensures
            byte == self.spec_bits(),
    {
        match self {
            ST7735MadControl::MadctlMy => MADCTL_MY,
            ST7735MadControl::MadctlMx => MADCTL_MX,
            ST7735MadControl::MadctlMv => MADCTL_MV,
            ST7735MadControl::MadctlMl => MADCTL_ML,
            ST7735MadControl::MadctlBgr => MADCTL_BGR,
            ST7735MadControl::MadctlMh => MADCTL_MH,
            ST7735MadControl::MadctlRgb => MADCTL_RGB,
        }
    }
}

/// Operating modes of the panel.
#[derive(Clone, Copy, Debug, PartialEq, Eq, Structural)]
pub enum TFTMode {
    DisplayOff,
}

/// How the picture is turned against the panel's native orientation.
#[derive(Clone, Copy, Debug, PartialEq, Eq, Structural)]
pub enum TFTRotate {
    Degrees0,
    Degrees90,
    Degrees180,
    Degrees270,
}

impl TFTRotate {
    /// Whether the logical width and height are the native ones exchanged.
    pub open spec fn spec_swaps_axes(self) -> bool {
        self == TFTRotate::Degrees90 || self == TFTRotate::Degrees270
    }

    /// Whether the logical width and height are the native ones exchanged.
    #[verifier::when_used_as_spec(spec_swaps_axes)]
    pub fn swaps_axes(self) -> (swapped: bool)
        ensures
            swapped == self.spec_swaps_axes(),
    {
        match self {
            TFTRotate::Degrees0 => false,
            TFTRotate::Degrees90 => true,
            TFTRotate::Degrees180 => false,
            TFTRotate::Degrees270 => true,
        }
    }
}

/// The colour of the breakout board, which tells how its subpixels are
/// wired.
#[derive(Clone, Copy, Debug, PartialEq, Eq, Structural)]
pub enum TFTPcbType {
    Red,
    Green,
    Black,
    /// No variant was told: treated as any board but the black one.
    Unspecified,
}

/// The Memory Access Control byte for a rotation on a board variant.
///
/// | Rotation | Black board  | Any other board     |
/// |----------|--------------|---------------------|
/// | 0°       | MX, MY, RGB  | BGR, MY             |
/// | 90°      | MV, MY, RGB  | BGR, MV             |
/// | 180°     | RGB          | BGR, MX             |
/// | 270°     | MV, MX, RGB  | BGR, MV, MX, MY     |
pub open spec fn spec_madctl(rotate: TFTRotate, pcb: TFTPcbType) -> u8 {
    let black = pcb == TFTPcbType::Black;
    match rotate {
        TFTRotate::Degrees0 => if black {
            MADCTL_RGB | MADCTL_MX | MADCTL_MY
        } else {
            MADCTL_BGR | MADCTL_MY
        },
        TFTRotate::Degrees90 => if black {
            MADCTL_RGB | MADCTL_MV | MADCTL_MY
        } else {
            MADCTL_BGR | MADCTL_MV
        },
        TFTRotate::Degrees180 => if black {
            MADCTL_RGB
        } else {
            MADCTL_BGR | MADCTL_MX
        },
        TFTRotate::Degrees270 => if black {
            MADCTL_RGB | MADCTL_MV | MADCTL_MX
        } else {
            MADCTL_BGR | MADCTL_MV | MADCTL_MX | MADCTL_MY
        },
    }
}

/// The Memory Access Control byte for a rotation on a board variant.
#[verifier::when_used_as_spec(spec_madctl)]
pub fn madctl(rotate: TFTRotate, pcb: TFTPcbType) -> (byte: u8)
    ensures
        byte == spec_madctl(rotate, pcb),
{
    let black = match pcb {
        TFTPcbType::Black => true,
        _ => false,
    };
    match rotate {
        TFTRotate::Degrees0 => if black {
            MADCTL_RGB | MADCTL_MX | MADCTL_MY
        } else {
            MADCTL_BGR | MADCTL_MY
        },
        TFTRotate::Degrees90 => if black {
            MADCTL_RGB | MADCTL_MV | MADCTL_MY
        } else {
            MADCTL_BGR | MADCTL_MV
        },
        TFTRotate::Degrees180 => if black {
            MADCTL_RGB
        } else {
            MADCTL_BGR | MADCTL_MX
        },
        TFTRotate::Degrees270 => if black {
            MADCTL_RGB | MADCTL_MV | MADCTL_MX
        } else {
            MADCTL_BGR | MADCTL_MV | MADCTL_MX | MADCTL_MY
        },
    }
}

/// The register byte of each rotation and board variant, written out.
pub proof fn lemma_madctl_table(rotate: TFTRotate, pcb: TFTPcbType)
    ensures
        spec_madctl(rotate, pcb) == match rotate {
            TFTRotate::Degrees0 => if pcb == TFTPcbType::Black { 0xC0u8 } else { 0x88u8 },
            TFTRotate::Degrees90 => if pcb == TFTPcbType::Black { 0xA0u8 } else { 0x28u8 },
            TFTRotate::Degrees180 => if pcb == TFTPcbType::Black { 0x00u8 } else { 0x48u8 },
            TFTRotate::Degrees270 => if pcb == TFTPcbType::Black { 0x60u8 } else { 0xE8u8 },
        },
{
    assert(0x00u8 | 0x40u8 | 0x80u8 == 0xC0u8) by (bit_vector);
    assert(0x08u8 | 0x80u8 == 0x88u8) by (bit_vector);
    assert(0x00u8 | 0x20u8 | 0x80u8 == 0xA0u8) by (bit_vector);
    assert(0x08u8 | 0x20u8 == 0x28u8) by (bit_vector);
    assert(0x08u8 | 0x40u8 == 0x48u8) by (bit_vector);
    assert(0x00u8 | 0x20u8 | 0x40u8 == 0x60u8) by (bit_vector);
    assert(0x08u8 | 0x20u8 | 0x40u8 | 0x80u8 == 0xE8u8) by (bit_vector);
}

/// The subpixel order bit is set on every board but the black one, and the
/// row/column exchange bit exactly in the quarter turns.
pub proof fn lemma_madctl_bits(rotate: TFTRotate, pcb: TFTPcbType)
    ensures
        (spec_madctl(rotate, pcb) & MADCTL_BGR != 0) <==> pcb != TFTPcbType::Black,
        (spec_madctl(rotate, pcb) & MADCTL_MV != 0) <==> rotate.spec_swaps_axes(),
{
    lemma_madctl_table(rotate, pcb);
    assert(0xC0u8 & 0x08u8 == 0 && 0xC0u8 & 0x20u8 == 0) by (bit_vector);
    assert(0x88u8 & 0x08u8 != 0 && 0x88u8 & 0x20u8 == 0) by (bit_vector);
    assert(0xA0u8 & 0x08u8 == 0 && 0xA0u8 & 0x20u8 != 0) by (bit_vector);
    assert(0x28u8 & 0x08u8 != 0 && 0x28u8 & 0x20u8 != 0) by (bit_vector);
    assert(0x00u8 & 0x08u8 == 0 && 0x00u8 & 0x20u8 == 0) by (bit_vector);
    assert(0x48u8 & 0x08u8 != 0 && 0x48u8 & 0x20u8 == 0) by (bit_vector);
    assert(0x60u8 & 0x08u8 == 0 && 0x60u8 & 0x20u8 != 0) by (bit_vector);
    assert(0xE8u8 & 0x08u8 != 0 && 0xE8u8 & 0x20u8 != 0) by (bit_vector);
}

} // verus!
