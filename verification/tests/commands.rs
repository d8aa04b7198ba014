use ps2_gamepad::commands::{
    CResult, Command, ControllerError, DeviceCInfo, DeviceMode, DeviceState, DeviceType,
    DATA_HEADER_SIZE, DATA_PAYLOAD_SIZE, DATA_SIZE, TX_PS2, TX_PSX,
};

#[test]
fn command_codes_match_the_wire_protocol() {
    assert_eq!(Command::QueryDS2AnalogMode.code(), 0x41);
    assert_eq!(Command::MainPoll.code(), 0x42);
    assert_eq!(Command::Config.code(), 0x43);
    assert_eq!(Command::SetModeAndLock.code(), 0x44);
    assert_eq!(Command::QueryModelAndMode.code(), 0x45);
    assert_eq!(Command::GetConst1.code(), 0x46);
    assert_eq!(Command::GetConst2.code(), 0x47);
    assert_eq!(Command::GetConst3.code(), 0x4C);
    assert_eq!(Command::MapMotors.code(), 0x4D);
    assert_eq!(Command::SetupPoll.code(), 0x4F);
}

#[test]
fn frame_sizes_add_up() {
    assert_eq!(DATA_HEADER_SIZE, 3);
    assert_eq!(DATA_PAYLOAD_SIZE, 18);
    assert_eq!(DATA_SIZE, 21);
    assert_eq!(DATA_SIZE, (DATA_HEADER_SIZE + DATA_PAYLOAD_SIZE) as usize);
    assert_eq!(TX_PSX, 0x00);
    assert_eq!(TX_PS2, 0x5A);
}

#[test]
fn device_mode_reads_the_upper_nibble() {
    assert_eq!(DeviceMode::from(0x41), DeviceMode::Digital);
    assert_eq!(DeviceMode::from(0x73), DeviceMode::Analog);
    assert_eq!(DeviceMode::from(0xF3), DeviceMode::DualShock2Native);
    assert_eq!(DeviceMode::from(0x00), DeviceMode::Unknown);
    assert_eq!(DeviceMode::from(0x51), DeviceMode::Unknown);
}

#[test]
fn device_mode_ignores_the_lower_nibble_for_every_byte() {
    for v in 0u8..=255 {
        let expected = match v >> 4 {
            0x4 => DeviceMode::Digital,
            0x7 => DeviceMode::Analog,
            0xF => DeviceMode::DualShock2Native,
            _ => DeviceMode::Unknown,
        };
        assert_eq!(DeviceMode::from(v), expected);
    }
}

#[test]
fn device_mode_codes() {
    assert_eq!(DeviceMode::Unknown.code(), 0x00);
    assert_eq!(DeviceMode::Digital.code(), 0x40);
    assert_eq!(DeviceMode::Analog.code(), 0x70);
    assert_eq!(DeviceMode::DualShock2Native.code(), 0xF0);
    assert_eq!(DeviceMode::from(DeviceMode::Analog.code()), DeviceMode::Analog);
}

#[test]
fn device_type_reads_the_model_byte() {
    assert_eq!(DeviceType::from(0x01), DeviceType::DualShock1);
    assert_eq!(DeviceType::from(0x03), DeviceType::DualShock2);
    assert_eq!(DeviceType::from(0x00), DeviceType::Unknown);
    assert_eq!(DeviceType::from(0x02), DeviceType::Unknown);
    assert_eq!(DeviceType::from(0xFF), DeviceType::Unknown);
    assert_eq!(DeviceType::Unknown.code(), 0x00);
    assert_eq!(DeviceType::DualShock1.code(), 0x01);
    assert_eq!(DeviceType::DualShock2.code(), 0x03);
}

#[test]
fn device_state_follows_the_result() {
    let ok: CResult<u16> = Ok(7);
    assert_eq!(DeviceState::from(ok), DeviceState::Connected);
    let unit: CResult<()> = Ok(());
    assert_eq!(DeviceState::from(unit), DeviceState::Connected);
    let no_response: CResult<()> = Err(ControllerError::NoResponse);
    assert_eq!(DeviceState::from(no_response), DeviceState::ConnectionError);
    let bad_header: CResult<u16> = Err(ControllerError::BadHeader);
    assert_eq!(DeviceState::from(bad_header), DeviceState::ConnectionError);
    let logic: CResult<(u8, u8)> = Err(ControllerError::LogicError);
    assert_eq!(DeviceState::from(logic), DeviceState::ConnectionError);
}

#[test]
fn device_info_starts_zeroed() {
    let info = DeviceCInfo::default();
    assert_eq!(info.unknown1, [0u8; 10]);
    assert_eq!(info.unknown2, [0u8; 5]);
    assert_eq!(info.unknown3, [0u8; 10]);
}
