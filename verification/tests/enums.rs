use tft_spi::{madctl, Command, ST7735MadControl, TFTPcbType, TFTRotate};

#[test]
fn opcodes_are_those_of_the_controller() {
    let table = [
        (Command::SoftReset, 0x01u8),
        (Command::SleepIn, 0x10),
        (Command::SleepOut, 0x11),
        (Command::NormalDisplayModeOn, 0x13),
        (Command::DisplayInversionOff, 0x20),
        (Command::DisplayOn, 0x29),
        (Command::IdleModeOff, 0x38),
        (Command::ColumnAddressSet, 0x2A),
        (Command::RowAddressSet, 0x2B),
        (Command::MemoryWrite, 0x2C),
        (Command::InterfacePixelFormat, 0x3A),
        (Command::MemoryAccessControl, 0x36),
        (Command::InterfaceModeControl, 0xB0),
        (Command::FrameRateControlNormal, 0xB1),
        (Command::FrameRateControlIdle, 0xB2),
        (Command::FrameRateControlPartial, 0xB3),
        (Command::DisplayInversionControl, 0xB4),
        (Command::DisplayFunctionControl, 0xB6),
        (Command::PowerControl1, 0xC0),
        (Command::PowerControl2, 0xC1),
        (Command::PowerControl3, 0xC2),
        (Command::PowerControl4, 0xC3),
        (Command::PowerControl5, 0xC4),
        (Command::VcomControl1, 0xC5),
        (Command::PositiveGammaControl, 0xE0),
        (Command::NegativeGammaControl, 0xE1),
        (Command::DigitalGammaControl1, 0xE2),
    ];
    for (i, (cmd, byte)) in table.iter().enumerate() {
        assert_eq!(cmd.opcode(), *byte);
        for (other, _) in &table[i + 1..] {
            assert_ne!(cmd.opcode(), other.opcode());
        }
    }
}

#[test]
fn madctl_flags_have_their_bits() {
    assert_eq!(ST7735MadControl::MadctlMy.bits(), 0x80);
    assert_eq!(ST7735MadControl::MadctlMx.bits(), 0x40);
    assert_eq!(ST7735MadControl::MadctlMv.bits(), 0x20);
    assert_eq!(ST7735MadControl::MadctlMl.bits(), 0x10);
    assert_eq!(ST7735MadControl::MadctlBgr.bits(), 0x08);
    assert_eq!(ST7735MadControl::MadctlMh.bits(), 0x04);
    assert_eq!(ST7735MadControl::MadctlRgb.bits(), 0x00);
}

#[test]
fn madctl_follows_the_rotation_table() {
    let my = ST7735MadControl::MadctlMy.bits();
    let mx = ST7735MadControl::MadctlMx.bits();
    let mv = ST7735MadControl::MadctlMv.bits();
    let bgr = ST7735MadControl::MadctlBgr.bits();
    let rgb = ST7735MadControl::MadctlRgb.bits();

    assert_eq!(madctl(TFTRotate::Degrees0, TFTPcbType::Black), mx | my | rgb);
    assert_eq!(madctl(TFTRotate::Degrees90, TFTPcbType::Black), mv | my | rgb);
    assert_eq!(madctl(TFTRotate::Degrees180, TFTPcbType::Black), rgb);
    assert_eq!(madctl(TFTRotate::Degrees270, TFTPcbType::Black), mv | mx | rgb);
    for pcb in [TFTPcbType::Red, TFTPcbType::Green, TFTPcbType::Unspecified] {
        assert_eq!(madctl(TFTRotate::Degrees0, pcb), bgr | my);
        assert_eq!(madctl(TFTRotate::Degrees90, pcb), bgr | mv);
        assert_eq!(madctl(TFTRotate::Degrees180, pcb), bgr | mx);
        assert_eq!(madctl(TFTRotate::Degrees270, pcb), bgr | mv | mx | my);
    }
}

#[test]
fn madctl_bytes_written_out() {
    assert_eq!(madctl(TFTRotate::Degrees0, TFTPcbType::Black), 0xC0);
    assert_eq!(madctl(TFTRotate::Degrees90, TFTPcbType::Black), 0xA0);
    assert_eq!(madctl(TFTRotate::Degrees180, TFTPcbType::Black), 0x00);
    assert_eq!(madctl(TFTRotate::Degrees270, TFTPcbType::Black), 0x60);
    assert_eq!(madctl(TFTRotate::Degrees0, TFTPcbType::Unspecified), 0x88);
    assert_eq!(madctl(TFTRotate::Degrees90, TFTPcbType::Unspecified), 0x28);
    assert_eq!(madctl(TFTRotate::Degrees180, TFTPcbType::Unspecified), 0x48);
    assert_eq!(madctl(TFTRotate::Degrees270, TFTPcbType::Unspecified), 0xE8);
}

#[test]
fn quarter_turns_swap_the_axes() {
    assert!(!TFTRotate::Degrees0.swaps_axes());
    assert!(TFTRotate::Degrees90.swaps_axes());
    assert!(!TFTRotate::Degrees180.swaps_axes());
    assert!(TFTRotate::Degrees270.swaps_axes());
}
