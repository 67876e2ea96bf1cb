use tektite::error::ProtoError;
use tektite::wire::{
    decode_command, decode_sensor_buf, decode_status, encode_command, encode_config_into,
    encode_status, Command, CommandType, Config, StatusData, COMMAND_SIZE, CONFIG_SIZE,
    SENSOR_BUF_SIZE, STATUS_SIZE,
};

fn sample_config() -> Config {
    Config {
        init: 0xDEAD_BEEF,
        s1min: -1200,
        s2min: 0,
        s3min: 77,
        s1max: 1500,
        s2max: -1,
        s3max: i32::MAX,
        control: true,
        param: 250.0f32.to_bits(),
        starttime: 9,
        p_gain: 0.02f32.to_bits(),
        alpha: 0.5f32.to_bits(),
        mass: 1.85f32.to_bits(),
    }
}

#[test]
fn command_encode_decode_round_trip() {
    let cmd = Command { command_type: CommandType::ConfigWrite, config: sample_config() };
    let bytes = encode_command(&cmd);
    assert_eq!(bytes.len(), COMMAND_SIZE);
    let back = decode_command(&bytes).expect("a full command buffer must decode");
    assert_eq!(back, cmd);
    // Re-encoding the decoded value recovers the exact byte sequence.
    assert_eq!(encode_command(&back), bytes);
}

#[test]
fn command_encoded_size_is_constant() {
    let zero = Command { command_type: CommandType::Status, config: Config::default() };
    let busy = Command { command_type: CommandType::FlightReplay, config: sample_config() };
    assert_eq!(encode_command(&zero).len(), 1 + CONFIG_SIZE);
    assert_eq!(encode_command(&busy).len(), 1 + CONFIG_SIZE);
}

#[test]
fn command_round_trip_every_tag() {
    for t in [
        CommandType::ServoMin,
        CommandType::ServoMax,
        CommandType::Status,
        CommandType::ConfigWrite,
        CommandType::DataRead,
        CommandType::FlightReplay,
    ] {
        let cmd = Command { command_type: t, config: sample_config() };
        let back = decode_command(&encode_command(&cmd)).unwrap();
        assert_eq!(back, cmd);
    }
}

#[test]
fn command_wrong_length_is_format_error() {
    let cmd = Command { command_type: CommandType::Status, config: Config::default() };
    let mut bytes = encode_command(&cmd);
    bytes.pop();
    assert_eq!(decode_command(&bytes), Err(ProtoError::FormatError));
    let long = vec![0u8; COMMAND_SIZE + 1];
    assert_eq!(decode_command(&long), Err(ProtoError::FormatError));
}

#[test]
fn command_unknown_tag_is_format_error() {
    let mut bytes = encode_command(&Command {
        command_type: CommandType::Status,
        config: Config::default(),
    });
    bytes[0] = 6;
    assert_eq!(decode_command(&bytes), Err(ProtoError::FormatError));
}

#[test]
fn config_byte_layout_is_exact() {
    let c = Config {
        init: 1,
        s1min: -2,
        s2min: 3,
        s3min: 4,
        s1max: 5,
        s2max: 6,
        s3max: 7,
        control: true,
        param: 0x0102_0304,
        starttime: 8,
        p_gain: 0x1122_3344,
        alpha: 0x5566_7788,
        mass: 0x99AA_BBCC,
    };
    let mut bytes: Vec<u8> = Vec::new();
    encode_config_into(&mut bytes, &c);
    assert_eq!(bytes.len(), CONFIG_SIZE);
    let mut expected: Vec<u8> = Vec::new();
    expected.extend_from_slice(&1u32.to_le_bytes());
    expected.extend_from_slice(&(-2i32).to_le_bytes());
    expected.extend_from_slice(&3i32.to_le_bytes());
    expected.extend_from_slice(&4i32.to_le_bytes());
    expected.extend_from_slice(&5i32.to_le_bytes());
    expected.extend_from_slice(&6i32.to_le_bytes());
    expected.extend_from_slice(&7i32.to_le_bytes());
    expected.push(1);
    expected.extend_from_slice(&0x0102_0304u32.to_le_bytes());
    expected.extend_from_slice(&8u32.to_le_bytes());
    expected.extend_from_slice(&0x1122_3344u32.to_le_bytes());
    expected.extend_from_slice(&0x5566_7788u32.to_le_bytes());
    expected.extend_from_slice(&0x99AA_BBCCu32.to_le_bytes());
    assert_eq!(bytes, expected);
}

#[test]
fn status_round_trip_and_length() {
    let st = StatusData { has_data: true, config: sample_config() };
    let bytes = encode_status(&st);
    assert_eq!(bytes.len(), STATUS_SIZE);
    let back = decode_status(&bytes).unwrap();
    assert_eq!(back, st);
}

#[test]
fn status_wrong_length_is_format_error() {
    assert_eq!(decode_status(&[0u8; 49]), Err(ProtoError::FormatError));
    assert_eq!(decode_status(&[0u8; 51]), Err(ProtoError::FormatError));
}

#[test]
fn sensor_buf_rejects_any_other_size() {
    assert_eq!(decode_sensor_buf(&[]), Err(ProtoError::FormatError));
    assert_eq!(
        decode_sensor_buf(&vec![0u8; SENSOR_BUF_SIZE - 1]),
        Err(ProtoError::FormatError)
    );
    assert_eq!(
        decode_sensor_buf(&vec![0u8; SENSOR_BUF_SIZE + 1]),
        Err(ProtoError::FormatError)
    );
    assert!(decode_sensor_buf(&vec![0u8; SENSOR_BUF_SIZE]).is_ok());
}

#[test]
fn sensor_buf_decodes_fields() {
    let mut bytes = vec![0u8; SENSOR_BUF_SIZE];
    // Sentinel and count.
    bytes[0..4].copy_from_slice(&0u32.to_le_bytes());
    bytes[4] = 2;
    // First frame: timestamp 71, state 3, samples 2.
    bytes[5..9].copy_from_slice(&71u32.to_le_bytes());
    bytes[5 + 80] = 3;
    bytes[5 + 81] = 2;
    // Second frame: timestamp 9000.
    bytes[87..91].copy_from_slice(&9000u32.to_le_bytes());
    let buf = decode_sensor_buf(&bytes).unwrap();
    assert_eq!(buf.zero, 0);
    assert_eq!(buf.sample_count, 2);
    assert_eq!(buf.frames.len(), 42);
    assert_eq!(buf.frames[0].time, 71);
    assert_eq!(buf.frames[0].state, 3);
    assert_eq!(buf.frames[0].samples, 2);
    assert_eq!(buf.frames[1].time, 9000);
    assert_eq!(buf.frames[2].time, 0);
}

#[test]
fn sensor_buf_terminal_sentinel() {
    let mut bytes = vec![0u8; SENSOR_BUF_SIZE];
    bytes[0..4].copy_from_slice(&1u32.to_le_bytes());
    let buf = decode_sensor_buf(&bytes).unwrap();
    assert_ne!(buf.zero, 0);
}
