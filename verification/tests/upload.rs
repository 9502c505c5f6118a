use matrix_protocol::color::{Frame, RGB8};
use matrix_protocol::control::{ControlAction, ControlState};
use matrix_protocol::geometry::MATRIX_PIXEL_COUNT;
use matrix_protocol::protocol::{Command, DecodeError, MAX_ANIMATION_FRAMES};
use matrix_protocol::studio::{frames_from_layouts, to_frame, upload_commands, RGB};
use matrix_protocol::wire::{frame_command, read_frame_length};

fn solid(v: u8) -> Frame {
    [RGB8 { r: v, g: v.wrapping_add(1), b: v.wrapping_add(2) }; MATRIX_PIXEL_COUNT]
}

fn layout(v: u8, len: usize) -> Vec<RGB> {
    vec![RGB { r: v, g: 0, b: 255 }; len]
}

#[test]
fn to_frame_converts_a_full_layout() {
    let frame = to_frame(&layout(7, MATRIX_PIXEL_COUNT)).unwrap();
    assert!(frame.iter().all(|p| *p == RGB8 { r: 7, g: 0, b: 255 }));
}

#[test]
fn to_frame_refuses_layouts_of_the_wrong_size() {
    assert_eq!(
        to_frame(&layout(7, MATRIX_PIXEL_COUNT - 1)),
        Err("Layout size does not match MATRIX_PIXEL_COUNT".to_string())
    );
    assert!(to_frame(&[]).is_err());
    assert!(to_frame(&layout(0, MATRIX_PIXEL_COUNT + 1)).is_err());
}

#[test]
fn frames_from_layouts_fails_on_any_bad_layout() {
    let good = vec![layout(1, MATRIX_PIXEL_COUNT), layout(2, MATRIX_PIXEL_COUNT)];
    let frames = frames_from_layouts(&good).unwrap();
    assert_eq!(frames.len(), 2);
    assert_eq!(frames[1][0], RGB8 { r: 2, g: 0, b: 255 });
    let bad = vec![layout(1, MATRIX_PIXEL_COUNT), layout(2, 3)];
    assert_eq!(
        frames_from_layouts(&bad),
        Err("Layout size does not match MATRIX_PIXEL_COUNT".to_string())
    );
    assert_eq!(frames_from_layouts(&vec![]), Ok(vec![]));
}

#[test]
fn upload_commands_for_zero_and_one_frame() {
    assert!(upload_commands(&vec![], 10).is_empty());
    assert_eq!(upload_commands(&vec![solid(3)], 10), vec![Command::SetFrame(solid(3))]);
}

#[test]
fn upload_commands_for_an_animation() {
    let frames = vec![solid(1), solid(2), solid(3)];
    let cmds = upload_commands(&frames, 300);
    assert_eq!(
        cmds,
        vec![
            Command::UploadAnimationStart { frame_count: 3, fps: 44 },
            Command::UploadAnimationFrame { index: 0, frame: solid(1) },
            Command::UploadAnimationFrame { index: 1, frame: solid(2) },
            Command::UploadAnimationFrame { index: 2, frame: solid(3) },
            Command::UploadAnimationEnd,
            Command::PlayUploadedAnimation,
        ]
    );
}

#[test]
fn receiver_applies_upload_steps() {
    let mut state = ControlState::new();
    assert_eq!(state.expected_frames, 0);
    let a = state.handle(Ok(Command::UploadAnimationStart { frame_count: 40, fps: 0 }));
    assert!(matches!(a, ControlAction::Stored));
    assert_eq!(state.expected_frames, MAX_ANIMATION_FRAMES as u8);
    assert_eq!(state.animation.frame_count, 0);
    assert_eq!(state.animation.fps, 1);

    let a = state.handle(Ok(Command::UploadAnimationFrame { index: 29, frame: solid(9) }));
    assert!(matches!(a, ControlAction::Stored));
    assert_eq!(state.animation.frames[29], solid(9));

    let a = state.handle(Ok(Command::UploadAnimationEnd));
    assert!(matches!(a, ControlAction::Stored));
    assert_eq!(state.animation.frame_count, 30);
}

#[test]
fn receiver_hands_on_other_commands_and_reports_errors() {
    let mut state = ControlState::new();
    match state.handle(Ok(Command::SetBrightness(3))) {
        ControlAction::Forward(c) => assert_eq!(c, Command::SetBrightness(3)),
        other => panic!("unexpected {:?}", other),
    }
    match state.handle(Err(DecodeError::UnknownTag(9))) {
        ControlAction::Rejected(e) => assert_eq!(e, DecodeError::UnknownTag(9)),
        other => panic!("unexpected {:?}", other),
    }
    assert_eq!(state.expected_frames, 0);
    assert_eq!(state.animation.frame_count, 0);
}

#[test]
fn studio_upload_reaches_the_device_over_the_wire() {
    let frames: Vec<Frame> = (0..5).map(|i| solid(10 * i as u8)).collect();
    let mut state = ControlState::new();
    let mut forwarded = Vec::new();
    for cmd in upload_commands(&frames, 12) {
        let bytes = frame_command(&cmd);
        let len = read_frame_length([bytes[0], bytes[1]]).unwrap();
        match state.handle(Command::decode(&bytes[2..2 + len])) {
            ControlAction::Forward(c) => forwarded.push(c),
            ControlAction::Stored => {}
            ControlAction::Rejected(e) => panic!("rejected {:?}", e),
        }
    }
    assert_eq!(forwarded, vec![Command::PlayUploadedAnimation]);
    assert_eq!(state.animation.frame_count, 5);
    assert_eq!(state.animation.fps, 12);
    for (i, f) in frames.iter().enumerate() {
        assert_eq!(state.animation.frames[i], *f);
    }
}

#[test]
fn half_uploaded_animation_is_not_playable() {
    let mut state = ControlState::new();
    state.handle(Ok(Command::UploadAnimationStart { frame_count: 2, fps: 5 }));
    state.handle(Ok(Command::UploadAnimationFrame { index: 0, frame: solid(1) }));
    state.handle(Ok(Command::UploadAnimationEnd));
    assert_eq!(state.animation.frame_count, 2);
    state.handle(Ok(Command::UploadAnimationStart { frame_count: 7, fps: 0 }));
    assert_eq!(state.animation.frame_count, 0);
    state.handle(Ok(Command::UploadAnimationFrame { index: 3, frame: solid(2) }));
    state.handle(Ok(Command::SetBrightness(5)));
    assert_eq!(state.animation.frame_count, 0);
    assert_eq!(state.animation.fps, 1);
    assert_eq!(state.expected_frames, 7);
    state.handle(Ok(Command::UploadAnimationEnd));
    assert_eq!(state.animation.frame_count, 7);
    assert!(state.animation.frame_count <= MAX_ANIMATION_FRAMES);
}
