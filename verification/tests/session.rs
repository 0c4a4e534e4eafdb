use imu_frames::frame::FRAME_LEN;
use imu_frames::session::{handle_read, run_session, LoopOutput, ReadEvent};

/// Lay out one on-wire frame from already-encoded channel words.
fn frame_bytes(frame_id: u64, timestamp: u64, channels: [f32; 7]) -> Vec<u8> {
    let mut bytes = Vec::new();
    bytes.extend_from_slice(&frame_id.to_le_bytes());
    bytes.extend_from_slice(&timestamp.to_le_bytes());
    for c in channels.iter() {
        bytes.extend_from_slice(&c.to_bits().to_le_bytes());
    }
    bytes.extend_from_slice(&[0u8; 4]);
    assert_eq!(bytes.len(), FRAME_LEN);
    bytes
}

#[test]
fn a_full_frame_yields_one_report() {
    let bytes = frame_bytes(3, 30, [1.0f32; 7]);
    let out = handle_read(&ReadEvent::Data(bytes));
    match out {
        Some(LoopOutput::Report(sample)) => {
            assert_eq!(sample.frame_id, 3);
            assert_eq!(sample.timestamp, 30);
            for w in sample.channels {
                assert_eq!(f32::from_bits(w), 1.0);
            }
        }
        other => panic!("expected a report, got {:?}", other),
    }
}

#[test]
fn a_wrong_length_chunk_yields_one_diagnostic_citing_the_length() {
    let out = handle_read(&ReadEvent::Data(vec![0u8; 10]));
    assert_eq!(out, Some(LoopOutput::BadLength(10)));
    let out = handle_read(&ReadEvent::Data(Vec::new()));
    assert_eq!(out, Some(LoopOutput::BadLength(0)));
}

#[test]
fn a_timeout_yields_nothing() {
    assert_eq!(handle_read(&ReadEvent::Timeout), None);
}

#[test]
fn a_read_error_yields_one_diagnostic_and_does_not_end_the_session() {
    let out = handle_read(&ReadEvent::Failed("device gone".to_string()));
    assert_eq!(out, Some(LoopOutput::IoError("device gone".to_string())));

    // The loop keeps going after an error, even a repeated one.
    let events = vec![
        ReadEvent::Failed("device gone".to_string()),
        ReadEvent::Failed("device gone".to_string()),
        ReadEvent::Data(frame_bytes(4, 40, [0.0f32; 7])),
    ];
    let log = run_session(Ok(()), &events);
    assert!(log.fatal.is_none());
    assert_eq!(log.outputs.len(), 3);
    assert_eq!(log.outputs[0], LoopOutput::IoError("device gone".to_string()));
    assert_eq!(log.outputs[1], LoopOutput::IoError("device gone".to_string()));
    assert!(matches!(log.outputs[2], LoopOutput::Report(_)));
}

#[test]
fn an_open_failure_is_fatal_and_the_loop_never_runs() {
    let events = vec![
        ReadEvent::Data(frame_bytes(1, 10, [0.0f32; 7])),
        ReadEvent::Failed("late".to_string()),
    ];
    let log = run_session(Err("no such device".to_string()), &events);
    assert_eq!(log.fatal, Some("no such device".to_string()));
    assert!(log.outputs.is_empty());
}

#[test]
fn four_reads_give_two_reports_one_diagnostic_one_silence() {
    let first = [0.0f32, 0.0, 9.8, 0.0, 0.0, 0.0, 25.0];
    let second = [0.1f32; 7];
    let events = vec![
        ReadEvent::Data(frame_bytes(1, 1000, first)),
        ReadEvent::Timeout,
        ReadEvent::Data(vec![0u8; 10]),
        ReadEvent::Data(frame_bytes(2, 2000, second)),
    ];
    let log = run_session(Ok(()), &events);
    assert!(log.fatal.is_none());
    assert_eq!(log.outputs.len(), 3);
    match &log.outputs[0] {
        LoopOutput::Report(sample) => {
            assert_eq!(sample.frame_id, 1);
            assert_eq!(sample.timestamp, 1000);
            for (i, w) in sample.channels.iter().enumerate() {
                assert_eq!(f32::from_bits(*w), first[i]);
            }
        }
        other => panic!("expected a report, got {:?}", other),
    }
    assert_eq!(log.outputs[1], LoopOutput::BadLength(10));
    match &log.outputs[2] {
        LoopOutput::Report(sample) => {
            assert_eq!(sample.frame_id, 2);
            assert_eq!(sample.timestamp, 2000);
            for w in sample.channels {
                assert_eq!(f32::from_bits(w), 0.1);
            }
        }
        other => panic!("expected a report, got {:?}", other),
    }
}
