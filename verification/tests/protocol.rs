use matrix_protocol::color::{Frame, RGB8};
use matrix_protocol::geometry::{xy_to_index, MATRIX_PIXEL_COUNT, MATRIX_WIDTH};
use matrix_protocol::protocol::{
    Command, DecodeError, FRAME_BYTES, MAX_ANIMATION_FRAMES, MAX_COMMAND_BYTES, MAX_CURRENT_MA,
    PORT,
};
use matrix_protocol::wire::{frame_command, read_frame_length, LEN_PREFIX_BYTES, MAX_WIRE_BYTES};

fn gradient_frame(seed: u8) -> Frame {
    let mut frame = [RGB8 { r: 0, g: 0, b: 0 }; MATRIX_PIXEL_COUNT];
    for (i, p) in frame.iter_mut().enumerate() {
        p.r = (i as u8).wrapping_add(seed);
        p.g = (i as u8).wrapping_mul(3).wrapping_add(seed);
        p.b = 255 - (i as u8);
    }
    frame
}

fn all_commands() -> Vec<Command> {
    vec![
        Command::SetFrame(gradient_frame(1)),
        Command::SetBrightness(42),
        Command::SelectAnimation(3),
        Command::UploadAnimationStart { frame_count: 12, fps: 24 },
        Command::UploadAnimationFrame { index: 7, frame: gradient_frame(9) },
        Command::UploadAnimationEnd,
        Command::PlayUploadedAnimation,
    ]
}

#[test]
fn constants_match_the_wire_layout() {
    assert_eq!(MATRIX_PIXEL_COUNT, 256);
    assert_eq!(FRAME_BYTES, 768);
    assert_eq!(MAX_COMMAND_BYTES, 771);
    assert_eq!(MAX_WIRE_BYTES, 773);
    assert_eq!(LEN_PREFIX_BYTES, 2);
    assert_eq!(MAX_ANIMATION_FRAMES, 30);
    assert_eq!(MAX_CURRENT_MA, 1500);
    assert_eq!(PORT, 7778);
}

#[test]
fn xy_to_index_runs_in_a_zig_zag() {
    assert_eq!(xy_to_index(0, 0), 0);
    assert_eq!(xy_to_index(15, 0), 15);
    assert_eq!(xy_to_index(15, 1), 16);
    assert_eq!(xy_to_index(0, 1), 31);
    assert_eq!(xy_to_index(3, 2), 35);
    assert_eq!(xy_to_index(0, 15), 255);
    assert_eq!(xy_to_index(15, 15), 240);
    // An even row accepts a column past the edge, as the wiring formula does.
    assert_eq!(xy_to_index(20, 0), 20);
}

#[test]
fn xy_to_index_is_a_bijection_of_the_grid() {
    let mut seen = [false; MATRIX_PIXEL_COUNT];
    for y in 0..16 {
        for x in 0..MATRIX_WIDTH {
            let i = xy_to_index(x, y);
            assert!(i < MATRIX_PIXEL_COUNT);
            assert!(!seen[i]);
            seen[i] = true;
        }
    }
    assert!(seen.iter().all(|&b| b));
}

#[test]
fn encode_writes_the_documented_bytes() {
    let mut buf = [0xAAu8; MAX_COMMAND_BYTES];
    assert_eq!(Command::SetBrightness(42).encode(&mut buf), 2);
    assert_eq!(&buf[..3], &[0x02, 42, 0xAA]);

    let mut buf = [0xAAu8; 8];
    assert_eq!(Command::SelectAnimation(5).encode(&mut buf), 2);
    assert_eq!(&buf[..3], &[0x03, 5, 0xAA]);

    let mut buf = [0xAAu8; 8];
    assert_eq!(Command::UploadAnimationStart { frame_count: 4, fps: 12 }.encode(&mut buf), 3);
    assert_eq!(&buf[..4], &[0x04, 4, 12, 0xAA]);

    let mut buf = [0xAAu8; 2];
    assert_eq!(Command::UploadAnimationEnd.encode(&mut buf), 1);
    assert_eq!(buf, [0x06, 0xAA]);

    let mut buf = [0xAAu8; 1];
    assert_eq!(Command::PlayUploadedAnimation.encode(&mut buf), 1);
    assert_eq!(buf, [0x07]);
}

#[test]
fn encode_writes_frames_channel_by_channel() {
    let frame = gradient_frame(0);
    let mut buf = [0u8; MAX_COMMAND_BYTES + 4];
    let n = Command::SetFrame(frame).encode(&mut buf);
    assert_eq!(n, 1 + FRAME_BYTES);
    assert_eq!(buf[0], 0x01);
    for (i, p) in frame.iter().enumerate() {
        assert_eq!(buf[1 + 3 * i], p.r);
        assert_eq!(buf[2 + 3 * i], p.g);
        assert_eq!(buf[3 + 3 * i], p.b);
    }
    assert_eq!(&buf[n..], &[0u8; 6][..]);

    let mut buf = [0u8; MAX_COMMAND_BYTES];
    let n = Command::UploadAnimationFrame { index: 29, frame }.encode(&mut buf);
    assert_eq!(n, 2 + FRAME_BYTES);
    assert_eq!(n, MAX_COMMAND_BYTES - 1);
    assert_eq!(&buf[..2], &[0x05, 29]);
    assert_eq!(buf[2], frame[0].r);
    assert_eq!(buf[n - 1], frame[MATRIX_PIXEL_COUNT - 1].b);
}

#[test]
fn decode_gives_back_what_encode_wrote() {
    for cmd in all_commands() {
        let mut buf = [0x5Au8; MAX_COMMAND_BYTES + 3];
        let n = cmd.encode(&mut buf);
        assert_eq!(Command::decode(&buf[..n]), Ok(cmd));
        // Bytes after the command do not change what is read.
        assert_eq!(Command::decode(&buf), Ok(cmd));
    }
}

#[test]
fn decode_reports_unknown_tags() {
    assert_eq!(Command::decode(&[0x00]), Err(DecodeError::UnknownTag(0x00)));
    assert_eq!(Command::decode(&[0x08, 1, 2]), Err(DecodeError::UnknownTag(0x08)));
    assert_eq!(Command::decode(&[0xFF]), Err(DecodeError::UnknownTag(0xFF)));
}

#[test]
fn decode_reports_short_commands() {
    assert_eq!(Command::decode(&[0x01]), Err(DecodeError::TooShort));
    assert_eq!(Command::decode(&[0x01; FRAME_BYTES]), Err(DecodeError::TooShort));
    assert_eq!(Command::decode(&[0x02]), Err(DecodeError::TooShort));
    assert_eq!(Command::decode(&[0x03]), Err(DecodeError::TooShort));
    assert_eq!(Command::decode(&[0x04, 1]), Err(DecodeError::TooShort));
    assert_eq!(Command::decode(&[0x05, 1]), Err(DecodeError::TooShort));
    assert_eq!(Command::decode(&[0x05; 1 + FRAME_BYTES]), Err(DecodeError::TooShort));
}

#[test]
fn decode_accepts_bare_tags_of_commands_without_fields() {
    assert_eq!(Command::decode(&[0x06]), Ok(Command::UploadAnimationEnd));
    assert_eq!(Command::decode(&[0x07, 0x99]), Ok(Command::PlayUploadedAnimation));
    assert_eq!(Command::decode(&[0x02, 7]), Ok(Command::SetBrightness(7)));
    assert_eq!(
        Command::decode(&[0x04, 200, 0]),
        Ok(Command::UploadAnimationStart { frame_count: 200, fps: 0 })
    );
}

#[test]
fn frame_command_prefixes_the_big_endian_length() {
    let bytes = frame_command(&Command::SetBrightness(9));
    assert_eq!(bytes, vec![0x00, 0x02, 0x02, 9]);

    let frame = gradient_frame(4);
    let bytes = frame_command(&Command::SetFrame(frame));
    assert_eq!(bytes.len(), 2 + 1 + FRAME_BYTES);
    assert_eq!(&bytes[..3], &[0x03, 0x01, 0x01]);
    assert_eq!(Command::decode(&bytes[2..]), Ok(Command::SetFrame(frame)));
}

#[test]
fn read_frame_length_accepts_lengths_up_to_the_largest_command() {
    assert_eq!(read_frame_length([0x00, 0x02]), Some(2));
    assert_eq!(read_frame_length([0x03, 0x03]), Some(771));
    assert_eq!(read_frame_length([0x03, 0x04]), None);
    assert_eq!(read_frame_length([0xFF, 0xFF]), None);
    assert_eq!(read_frame_length([0x00, 0x00]), Some(0));
}

#[test]
fn framed_commands_are_read_back_by_the_device() {
    for cmd in all_commands() {
        let bytes = frame_command(&cmd);
        let len = read_frame_length([bytes[0], bytes[1]]).unwrap();
        assert_eq!(len, bytes.len() - 2);
        assert_eq!(Command::decode(&bytes[2..2 + len]), Ok(cmd));
    }
}

#[test]
fn a_decoded_command_encodes_to_the_bytes_it_came_from() {
    let mut bytes = vec![0x05, 3];
    bytes.extend((0..FRAME_BYTES).map(|k| (k % 251) as u8));
    bytes.extend([0xEE, 0xEF]);
    let cmd = Command::decode(&bytes).unwrap();
    let mut buf = [0u8; MAX_COMMAND_BYTES];
    let n = cmd.encode(&mut buf);
    assert_eq!(&buf[..n], &bytes[..n]);
    assert_eq!(n, bytes.len() - 2);

    let bytes = [0x04, 9, 60, 1, 2, 3];
    let cmd = Command::decode(&bytes).unwrap();
    let mut buf = [0u8; 3];
    assert_eq!(cmd.encode(&mut buf), 3);
    assert_eq!(buf, [0x04, 9, 60]);
}
