use rumiga::replay::{
    InputEvent, InputRecorder, InputRecording, RecordedInput, ReplayError, RECORDING_HEADER,
};

fn fixture() -> InputRecording {
    InputRecording::from_events(vec![
        RecordedInput {
            frame: 0,
            event: InputEvent::Key {
                keycode: 0x40,
                pressed: true,
            },
        },
        RecordedInput {
            frame: 3,
            event: InputEvent::Key {
                keycode: 0x40,
                pressed: false,
            },
        },
        RecordedInput {
            frame: 7,
            event: InputEvent::MouseMove { dx: -4, dy: 12 },
        },
        RecordedInput {
            frame: 9,
            event: InputEvent::MouseButtons {
                left: true,
                right: false,
            },
        },
    ])
    .expect("fixture is ordered")
}

#[test]
fn text_round_trips() {
    let recording = fixture();

    let parsed = InputRecording::parse(&recording.to_text()).expect("round trip parses");

    assert_eq!(parsed, recording);
    assert_eq!(parsed.digest(), recording.digest());
}

#[test]
fn the_text_form_is_readable() {
    let text = fixture().to_text();

    assert!(text.starts_with(RECORDING_HEADER));
    assert!(text.contains("0 key 40 down"));
    assert!(text.contains("3 key 40 up"));
    assert!(text.contains("7 mouse -4 12"));
    assert!(text.contains("9 buttons 1 0"));
}

#[test]
fn comments_and_blank_lines_are_ignored() {
    let text = "rumiga.input-recording.v1\n\n# open the Workbench menu\n2 key 40 down\n";

    let parsed = InputRecording::parse(text).expect("comments are allowed");

    assert_eq!(parsed.len(), 1);
    assert_eq!(parsed.events()[0].frame, 2);
}

#[test]
fn a_missing_header_is_rejected() {
    assert_eq!(
        InputRecording::parse("0 key 40 down\n"),
        Err(ReplayError::MissingHeader)
    );
    assert_eq!(InputRecording::parse(""), Err(ReplayError::MissingHeader));
}

#[test]
fn out_of_order_frames_are_rejected_rather_than_sorted() {
    let text = "rumiga.input-recording.v1\n5 key 40 down\n2 key 40 up\n";

    assert_eq!(
        InputRecording::parse(text),
        Err(ReplayError::FramesOutOfOrder { line: 3 })
    );
}

#[test]
fn malformed_lines_name_the_line() {
    for (text, expected) in [
        (
            "rumiga.input-recording.v1\n0 key\n",
            ReplayError::MalformedLine { line: 2 },
        ),
        (
            "rumiga.input-recording.v1\n0 key 40 sideways\n",
            ReplayError::MalformedLine { line: 2 },
        ),
        (
            "rumiga.input-recording.v1\n0 mouse 1\n",
            ReplayError::MalformedLine { line: 2 },
        ),
        (
            "rumiga.input-recording.v1\n0 buttons 2 0\n",
            ReplayError::MalformedLine { line: 2 },
        ),
        (
            "rumiga.input-recording.v1\n0 key 40 down extra\n",
            ReplayError::MalformedLine { line: 2 },
        ),
        (
            "rumiga.input-recording.v1\n0 wiggle 1 2\n",
            ReplayError::UnknownEventKind { line: 2 },
        ),
    ] {
        assert_eq!(InputRecording::parse(text), Err(expected), "{text:?}");
    }
}

#[test]
fn the_digest_separates_different_recordings() {
    let baseline = fixture();
    let one_frame_later = InputRecording::from_events(vec![RecordedInput {
        frame: 1,
        event: InputEvent::Key {
            keycode: 0x40,
            pressed: true,
        },
    }])
    .unwrap();
    let different_key = InputRecording::from_events(vec![RecordedInput {
        frame: 1,
        event: InputEvent::Key {
            keycode: 0x41,
            pressed: true,
        },
    }])
    .unwrap();

    assert_ne!(baseline.digest(), one_frame_later.digest());
    assert_ne!(one_frame_later.digest(), different_key.digest());
}

#[test]
fn the_digest_distinguishes_event_kinds_with_equal_payloads() {
    let buttons = InputRecording::from_events(vec![RecordedInput {
        frame: 0,
        event: InputEvent::MouseButtons {
            left: true,
            right: false,
        },
    }])
    .unwrap();
    let key = InputRecording::from_events(vec![RecordedInput {
        frame: 0,
        event: InputEvent::Key {
            keycode: 1,
            pressed: false,
        },
    }])
    .unwrap();

    assert_ne!(buttons.digest(), key.digest());
}

#[test]
fn the_recorder_skips_unchanged_button_state() {
    let mut recorder = InputRecorder::new();

    for frame in 0..10 {
        recorder.mouse_buttons(frame, false, false);
    }
    recorder.mouse_buttons(10, true, false);
    recorder.mouse_buttons(11, true, false);

    let recording = recorder.finish().expect("frames only advance");
    assert_eq!(recording.len(), 2);
    assert_eq!(
        recording.events()[0].event,
        InputEvent::MouseButtons {
            left: false,
            right: false
        }
    );
    assert_eq!(recording.events()[1].frame, 10);
}

#[test]
fn the_recorder_skips_zero_mouse_deltas() {
    let mut recorder = InputRecorder::new();

    recorder.mouse_move(0, 0, 0);
    recorder.mouse_move(1, 0, 3);

    let recording = recorder.finish().unwrap();
    assert_eq!(recording.len(), 1);
    assert_eq!(recording.events()[0].frame, 1);
}

#[test]
fn the_recorder_rejects_frames_that_go_backwards() {
    let mut recorder = InputRecorder::new();
    recorder.key(5, 0x40, true);
    recorder.key(2, 0x40, false);

    assert_eq!(
        recorder.finish(),
        Err(ReplayError::FramesOutOfOrder { line: 3 })
    );
}

#[test]
fn last_frame_reports_the_end_of_the_recording() {
    assert_eq!(fixture().last_frame(), Some(9));
    assert_eq!(InputRecording::default().last_frame(), None);
    assert!(InputRecording::default().is_empty());
}

#[test]
fn negative_mouse_deltas_and_large_frames_round_trip() {
    let recording = InputRecording::from_events(vec![
        RecordedInput {
            frame: 18_446_744_073_709_551_000,
            event: InputEvent::MouseMove { dx: i16::MIN, dy: i16::MAX },
        },
        RecordedInput {
            frame: 18_446_744_073_709_551_615,
            event: InputEvent::Key { keycode: 0xFF, pressed: false },
        },
    ])
    .expect("ordered");
    let text = recording.to_text();
    assert!(text.contains("-32768 32767"));
    assert!(text.contains("key ff up"));
    assert_eq!(InputRecording::parse(&text), Ok(recording));
}

#[test]
fn recorder_keeps_events_in_order_of_arrival() {
    let mut recorder = InputRecorder::new();
    recorder.key(1, 0x45, true);
    recorder.mouse_move(1, 2, -2);
    recorder.mouse_buttons(2, false, true);
    assert_eq!(recorder.events().len(), 3);
    let recording = recorder.finish().expect("ordered");
    assert_eq!(recording.events()[1].event, InputEvent::MouseMove { dx: 2, dy: -2 });
    assert_eq!(recording.last_frame(), Some(2));
}

#[test]
fn out_of_order_events_are_rejected_by_from_events() {
    let result = InputRecording::from_events(vec![
        RecordedInput { frame: 4, event: InputEvent::Key { keycode: 1, pressed: true } },
        RecordedInput { frame: 3, event: InputEvent::Key { keycode: 1, pressed: false } },
    ]);
    assert_eq!(result, Err(ReplayError::FramesOutOfOrder { line: 3 }));
}

#[test]
fn header_alone_parses_to_an_empty_recording() {
    let parsed = InputRecording::parse("rumiga.input-recording.v1\n").expect("header only");
    assert!(parsed.is_empty());
    assert_eq!(parsed.to_text(), "rumiga.input-recording.v1\n");
}

#[test]
fn error_messages_name_the_problem_and_line() {
    assert_eq!(
        ReplayError::MissingHeader.message(),
        "expected the header rumiga.input-recording.v1"
    );
    assert_eq!(
        ReplayError::MalformedLine { line: 12 }.message(),
        "malformed event on line 12"
    );
    assert_eq!(
        ReplayError::UnknownEventKind { line: 3 }.message(),
        "unknown event kind on line 3"
    );
    assert_eq!(
        ReplayError::FramesOutOfOrder { line: 100 }.message(),
        "frame index decreases on line 100"
    );
}
