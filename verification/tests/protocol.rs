use tektite::download::{batch_wf, process_batch, run_download, BatchStep};
use tektite::error::ProtoError;
use tektite::link::{
    config_write_request, data_read_request, expected_manufacturer, flight_replay_request,
    select_port, servo_test_request, status_request, LinkState, PortCandidate, DOWNLOAD_ACK,
};
use tektite::replay::{encode_replay_chunk, replay_chunks};
use tektite::wire::{decode_command, Config, Frame, ReplayData, SensorBuf, COMMAND_SIZE};

fn mk_frame(time: u32) -> Frame {
    Frame {
        time,
        alt: 0,
        vz: 0,
        vx: 0,
        vy: 0,
        az: 0,
        pre: 0,
        servo: 0,
        ax: 0,
        ay: 0,
        axr: 0,
        ayr: 0,
        azr: 0,
        gxr: 0,
        gyr: 0,
        gzr: 0,
        target: 0,
        altr: 0,
        baro: 0,
        temp: 0,
        state: 0,
        samples: 0,
    }
}

fn mk_batch(zero: u32, times: &[u32]) -> SensorBuf {
    let mut frames: Vec<Frame> = times.iter().map(|&t| mk_frame(t)).collect();
    while frames.len() < 42 {
        frames.push(mk_frame(0));
    }
    SensorBuf { zero, sample_count: times.len() as u8, frames }
}

#[test]
fn requests_are_well_formed_commands() {
    for bytes in [
        status_request(),
        data_read_request(),
        flight_replay_request(),
        config_write_request(&Config::default()),
        servo_test_request(&Config::default(), true),
        servo_test_request(&Config::default(), false),
    ] {
        assert_eq!(bytes.len(), COMMAND_SIZE);
        assert!(decode_command(&bytes).is_ok());
    }
    assert_eq!(status_request()[0], 2);
    assert_eq!(config_write_request(&Config::default())[0], 3);
    assert_eq!(data_read_request()[0], 4);
    assert_eq!(flight_replay_request()[0], 5);
    assert_eq!(servo_test_request(&Config::default(), false)[0], 0);
    assert_eq!(servo_test_request(&Config::default(), true)[0], 1);
}

#[test]
fn link_state_lifecycle() {
    let s = LinkState::Disconnected;
    assert!(!s.is_connected());
    assert_eq!(s.on_connect(false), LinkState::Disconnected);
    let c = s.on_connect(true);
    assert!(c.is_connected());
    // Disconnecting twice is a no-op, not an error.
    let d = c.on_disconnect();
    assert_eq!(d, LinkState::Disconnected);
    assert_eq!(d.on_disconnect(), LinkState::Disconnected);
    // A transport failure tears down and notifies only a live session.
    assert_eq!(c.on_io_error(), (LinkState::Disconnected, true));
    assert_eq!(d.on_io_error(), (LinkState::Disconnected, false));
}

#[test]
fn fatal_errors_are_the_transport_ones() {
    assert!(ProtoError::TransportIo.is_fatal_to_session());
    assert!(ProtoError::FormatError.is_fatal_to_session());
    assert!(!ProtoError::DeviceNotFound.is_fatal_to_session());
    assert!(!ProtoError::PortOpenFailed.is_fatal_to_session());
}

#[test]
fn select_port_picks_first_matching_manufacturer() {
    let exp = expected_manufacturer();
    let cands = vec![
        PortCandidate {
            port_name: String::from("/dev/ttyS0"),
            manufacturer: None,
            is_usb: false,
        },
        PortCandidate {
            port_name: String::from("/dev/ttyUSB0"),
            manufacturer: Some(String::from("SomeoneElse")),
            is_usb: true,
        },
        PortCandidate {
            port_name: String::from("/dev/ttyACM0"),
            manufacturer: Some(String::from("STMicroelectronics")),
            is_usb: true,
        },
        PortCandidate {
            port_name: String::from("/dev/ttyACM1"),
            manufacturer: Some(String::from("STMicroelectronics")),
            is_usb: true,
        },
    ];
    assert_eq!(select_port(&cands, &exp), Some(String::from("/dev/ttyACM0")));
}

#[test]
fn select_port_without_match_finds_nothing() {
    let exp = expected_manufacturer();
    assert_eq!(select_port(&Vec::new(), &exp), None);
    let cands = vec![PortCandidate {
        // The right string on a non-USB device does not match.
        port_name: String::from("/dev/ttyS1"),
        manufacturer: Some(String::from("STMicroelectronics")),
        is_usb: false,
    }];
    assert_eq!(select_port(&cands, &exp), None);
}

#[test]
fn process_batch_splits_rows_and_progress() {
    let b = mk_batch(0, &[5, 9, 3]);
    assert!(batch_wf(&b));
    match process_batch(&b) {
        BatchStep::Rows { frames, max_time } => {
            assert_eq!(frames.len(), 3);
            assert_eq!(frames[1].time, 9);
            assert_eq!(max_time, 9);
        }
        BatchStep::EndOfStream => panic!("a zero sentinel is not end of stream"),
    }
    match process_batch(&mk_batch(7, &[5])) {
        BatchStep::EndOfStream => {}
        BatchStep::Rows { .. } => panic!("a non-zero sentinel ends the stream"),
    }
}

#[test]
fn download_terminates_on_sentinel_with_exact_accounting() {
    let batches = vec![
        mk_batch(0, &[1, 2]),
        mk_batch(0, &[3, 4, 5]),
        mk_batch(1, &[99, 98, 97]), // terminal: its frames are not written
    ];
    let (session, rows) = run_download(&batches);
    assert!(session.finished);
    // One ack per batch, the last non-terminal one included, none for the
    // terminal batch.
    assert_eq!(session.acks_sent, 2);
    // Exactly the sum of the prior sample counts was written.
    assert_eq!(session.rows_written, 5);
    assert_eq!(rows.len(), 5);
    assert_eq!(rows[0].time, 1);
    assert_eq!(rows[4].time, 5);
    assert_eq!(DOWNLOAD_ACK, 1);
}

#[test]
fn download_without_sentinel_consumes_everything() {
    let batches = vec![mk_batch(0, &[1]), mk_batch(0, &[2, 3])];
    let (session, rows) = run_download(&batches);
    assert!(!session.finished);
    assert_eq!(session.acks_sent, 2);
    assert_eq!(session.rows_written, 3);
    assert_eq!(rows.len(), 3);
}

#[test]
fn download_immediate_sentinel_writes_nothing() {
    let batches = vec![mk_batch(3, &[1, 2, 3])];
    let (session, rows) = run_download(&batches);
    assert!(session.finished);
    assert_eq!(session.acks_sent, 0);
    assert_eq!(session.rows_written, 0);
    assert!(rows.is_empty());
}

#[test]
fn ten_replay_steps_make_two_chunks_with_padding() {
    let data: Vec<ReplayData> =
        (0..10).map(|k| ReplayData { delay: 100 * k, servo: k as u32 }).collect();
    let chunks = replay_chunks(&data);
    assert_eq!(chunks.len(), 2);
    assert_eq!(chunks[0].len(), 8);
    assert_eq!(chunks[1].len(), 8);
    // The second chunk has the two real steps, then six padding entries.
    assert_eq!(chunks[1][0].delay, 800);
    assert_eq!(chunks[1][1].delay, 900);
    for j in 2..8 {
        assert_eq!(chunks[1][j].delay, -1);
        assert_eq!(chunks[1][j].servo, 0);
    }
}

#[test]
fn replay_chunk_edges() {
    assert!(replay_chunks(&Vec::new()).is_empty());
    let one = vec![ReplayData { delay: 5, servo: 0 }];
    let chunks = replay_chunks(&one);
    assert_eq!(chunks.len(), 1);
    assert_eq!(chunks[0][0].delay, 5);
    assert_eq!(chunks[0][7].delay, -1);
    let eight: Vec<ReplayData> = (0..8).map(|k| ReplayData { delay: k, servo: 0 }).collect();
    assert_eq!(replay_chunks(&eight).len(), 1);
    let nine: Vec<ReplayData> = (0..9).map(|k| ReplayData { delay: k, servo: 0 }).collect();
    assert_eq!(replay_chunks(&nine).len(), 2);
}

#[test]
fn replay_chunk_encodes_to_sixty_four_bytes() {
    let data: Vec<ReplayData> =
        (0..3).map(|k| ReplayData { delay: k, servo: (0.5f32).to_bits() }).collect();
    let chunks = replay_chunks(&data);
    let bytes = encode_replay_chunk(&chunks[0]);
    assert_eq!(bytes.len(), 64);
    assert_eq!(&bytes[0..4], &0i32.to_le_bytes());
    assert_eq!(&bytes[4..8], &(0.5f32).to_bits().to_le_bytes());
    assert_eq!(&bytes[8..12], &1i32.to_le_bytes());
    // Padding entries carry the -1 sentinel delay.
    assert_eq!(&bytes[24..28], &(-1i32).to_le_bytes());
}
