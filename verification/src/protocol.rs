use vstd::prelude::*;

use crate::color::{Frame, RGB8};
use crate::geometry::MATRIX_PIXEL_COUNT;

verus! {

/// Largest current, in milliamperes, that the power supply may be asked for.
pub const MAX_CURRENT_MA: u32 = 1500;

/// Most frames that an uploaded animation can hold.
pub const MAX_ANIMATION_FRAMES: usize = 30;

/// Bytes of one frame on the wire: three channel bytes per LED.
pub const FRAME_BYTES: usize = MATRIX_PIXEL_COUNT * 3;

/// Largest single command on the wire: tag, index byte and one full frame
/// (one byte of slack kept for a wider index).
pub const MAX_COMMAND_BYTES: usize = 1 + 2 + FRAME_BYTES;

/// TCP port on which the device listens for the studio app.
pub const PORT: u16 = 7778;

/// Wire tag of `Command::SetFrame`.
pub const TAG_SET_FRAME: u8 = 0x01;
/// Wire tag of `Command::SetBrightness`.
pub const TAG_SET_BRIGHTNESS: u8 = 0x02;
/// Wire tag of `Command::SelectAnimation`.
pub const TAG_SELECT_ANIMATION: u8 = 0x03;
/// Wire tag of `Command::UploadAnimationStart`.
pub const TAG_UPLOAD_START: u8 = 0x04;
/// Wire tag of `Command::UploadAnimationFrame`.
pub const TAG_UPLOAD_FRAME: u8 = 0x05;
/// Wire tag of `Command::UploadAnimationEnd`.
pub const TAG_UPLOAD_END: u8 = 0x06;
/// Wire tag of `Command::PlayUploadedAnimation`.
pub const TAG_PLAY_UPLOADED: u8 = 0x07;

/// A command sent by the studio app to the device.
#[derive(Clone, Copy, Debug, PartialEq, Eq)]
pub enum Command {
    SetFrame(Frame),
    SetBrightness(u8),
    SelectAnimation(u8),
    UploadAnimationStart { frame_count: u8, fps: u8 },
    UploadAnimationFrame { index: u8, frame: Frame },
    UploadAnimationEnd,
    PlayUploadedAnimation,
}

/// Why a byte string is not a command.
#[derive(Clone, Copy, Debug, PartialEq, Eq, Structural)]
pub enum DecodeError {
    UnknownTag(u8),
    TooShort,
}

/// A command with its frames seen as sequences of colours.
pub enum CommandView {
    SetFrame(Seq<RGB8>),
    SetBrightness(u8),
    SelectAnimation(u8),
    UploadAnimationStart { frame_count: u8, fps: u8 },
    UploadAnimationFrame { index: u8, frame: Seq<RGB8> },
    UploadAnimationEnd,
    PlayUploadedAnimation,
}

impl View for Command {
    type V = CommandView;

    open spec fn view(&self) -> CommandView {
        match *self {
            Command::SetFrame(f) => CommandView::SetFrame(f@),
            Command::SetBrightness(b) => CommandView::SetBrightness(b),
            Command::SelectAnimation(a) => CommandView::SelectAnimation(a),
            Command::UploadAnimationStart { frame_count, fps } => CommandView::UploadAnimationStart {
                frame_count,
                fps,
            },
            Command::UploadAnimationFrame { index, frame } => CommandView::UploadAnimationFrame {
                index,
                frame: frame@,
            },
            Command::UploadAnimationEnd => CommandView::UploadAnimationEnd,
            Command::PlayUploadedAnimation => CommandView::PlayUploadedAnimation,
        }
    }
}

impl CommandView {
    /// Every frame that the command carries has one colour per LED.
    pub open spec fn well_formed(self) -> bool {
        match self {
            CommandView::SetFrame(f) => f.len() == MATRIX_PIXEL_COUNT,
            CommandView::UploadAnimationFrame { frame, .. } => frame.len() == MATRIX_PIXEL_COUNT,
            _ => true,
        }
    }
}

/// The channel bytes of the colours, red, green, blue, one colour after the other.
pub open spec fn spec_pixel_bytes(pixels: Seq<RGB8>) -> Seq<u8> {
    Seq::new(
        3 * pixels.len(),
        |k: int|
            {
                let p = pixels[k / 3];
                if k % 3 == 0 {
                    p.r
                } else if k % 3 == 1 {
                    p.g
                } else {
                    p.b
                }
            },
    )
}

/// The colours of one frame read from the channel bytes that start at `offset`.
pub open spec fn spec_read_pixels(bytes: Seq<u8>, offset: int) -> Seq<RGB8> {
    Seq::new(
        MATRIX_PIXEL_COUNT as nat,
        |i: int|
            RGB8 {
                r: bytes[offset + 3 * i],
                g: bytes[offset + 3 * i + 1],
                b: bytes[offset + 3 * i + 2],
            },
    )
}

/// The bytes that stand for a command on the wire: its tag, then its fields.
pub open spec fn spec_encode(c: CommandView) -> Seq<u8> {
    match c {
        CommandView::SetFrame(f) => seq![TAG_SET_FRAME] + spec_pixel_bytes(f),
        CommandView::SetBrightness(b) => seq![TAG_SET_BRIGHTNESS, b],
        CommandView::SelectAnimation(a) => seq![TAG_SELECT_ANIMATION, a],
        CommandView::UploadAnimationStart { frame_count, fps } => seq![
            TAG_UPLOAD_START,
            frame_count,
            fps,
        ],
        CommandView::UploadAnimationFrame { index, frame } => seq![TAG_UPLOAD_FRAME, index]
            + spec_pixel_bytes(frame),
        CommandView::UploadAnimationEnd => seq![TAG_UPLOAD_END],
        CommandView::PlayUploadedAnimation => seq![TAG_PLAY_UPLOADED],
    }
}

/// The command that a non-empty byte string starts with, or why it starts
/// with none. Bytes after the command are ignored.
pub open spec fn spec_decode(bytes: Seq<u8>) -> Result<CommandView, DecodeError>
    recommends
        bytes.len() >= 1,
{
    let tag = bytes[0];
    if tag == TAG_SET_FRAME {
        if bytes.len() < 1 + FRAME_BYTES {
            Err(DecodeError::TooShort)
        } else {
            Ok(CommandView::SetFrame(spec_read_pixels(bytes, 1)))
        }
    } else if tag == TAG_SET_BRIGHTNESS {
        if bytes.len() < 2 {
            Err(DecodeError::TooShort)
        } else {
            Ok(CommandView::SetBrightness(bytes[1]))
        }
    } else if tag == TAG_SELECT_ANIMATION {
        if bytes.len() < 2 {
            Err(DecodeError::TooShort)
        } else {
            Ok(CommandView::SelectAnimation(bytes[1]))
        }
    } else if tag == TAG_UPLOAD_START {
        if bytes.len() < 3 {
            Err(DecodeError::TooShort)
        } else {
            Ok(CommandView::UploadAnimationStart { frame_count: bytes[1], fps: bytes[2] })
        }
    } else if tag == TAG_UPLOAD_FRAME {
        if bytes.len() < 2 + FRAME_BYTES {
            Err(DecodeError::TooShort)
        } else {
            Ok(
                CommandView::UploadAnimationFrame {
                    index: bytes[1],
                    frame: spec_read_pixels(bytes, 2),
                },
            )
        }
    } else if tag == TAG_UPLOAD_END {
        Ok(CommandView::UploadAnimationEnd)
    } else if tag == TAG_PLAY_UPLOADED {
        Ok(CommandView::PlayUploadedAnimation)
    } else {
        Err(DecodeError::UnknownTag(tag))
    }
}

/// Writes the channel bytes of `pixels` into `buf` from `offset` on.
fn write_pixels(buf: &mut [u8], offset: usize, pixels: &Frame)
    requires
        offset + FRAME_BYTES <= old(buf)@.len(),
    ensures
        final(buf)@.len() == old(buf)@.len(),
        final(buf)@.subrange(offset as int, offset + FRAME_BYTES) == spec_pixel_bytes(pixels@),
        final(buf)@.take(offset as int) == old(buf)@.take(offset as int),
        final(buf)@.skip(offset + FRAME_BYTES) == old(buf)@.skip(offset + FRAME_BYTES),
{
    let ghost bytes = spec_pixel_bytes(pixels@);
    let len = buf.len();
    for i in 0..MATRIX_PIXEL_COUNT
        invariant
            len == old(buf)@.len(),
            offset + FRAME_BYTES <= old(buf)@.len(),
            buf@.len() == old(buf)@.len(),
            bytes == spec_pixel_bytes(pixels@),
            forall|k: int| 0 <= k < 3 * i ==> #[trigger] buf@[offset + k] == bytes[k],
            forall|k: int|
                0 <= k < old(buf)@.len() && !(offset <= k < offset + 3 * i) ==> #[trigger] buf@[k]
                    == old(buf)@[k],
    {
        let p = pixels[i];
        assert(bytes[3 * i] == p.r);
        assert(bytes[3 * i + 1] == p.g);
        assert(bytes[3 * i + 2] == p.b);
        buf[offset + i * 3] = p.r;
        buf[offset + i * 3 + 1] = p.g;
        buf[offset + i * 3 + 2] = p.b;
    }
    assert(FRAME_BYTES == 3 * MATRIX_PIXEL_COUNT);
    assert(pixels@.len() == MATRIX_PIXEL_COUNT);
    assert(bytes.len() == FRAME_BYTES);
    assert forall|k: int| 0 <= k < FRAME_BYTES implies #[trigger] buf@.subrange(
        offset as int,
        offset + FRAME_BYTES,
    )[k] == bytes[k] by {
        assert(buf@[offset + k] == bytes[k]);
    }
    assert(buf@.subrange(offset as int, offset + FRAME_BYTES) =~= bytes);
    assert(buf@.take(offset as int) =~= old(buf)@.take(offset as int));
    assert(buf@.skip(offset + FRAME_BYTES) =~= old(buf)@.skip(offset + FRAME_BYTES));
}

/// Bytes that `spec_encode` gives a well-formed command.
pub open spec fn spec_encoded_len(c: CommandView) -> nat {
    match c {
        CommandView::SetFrame(_) => (1 + FRAME_BYTES) as nat,
        CommandView::SetBrightness(_) => 2,
        CommandView::SelectAnimation(_) => 2,
        CommandView::UploadAnimationStart { .. } => 3,
        CommandView::UploadAnimationFrame { .. } => (2 + FRAME_BYTES) as nat,
        CommandView::UploadAnimationEnd => 1,
        CommandView::PlayUploadedAnimation => 1,
    }
}

/// The encoding of a well-formed command has the length that
/// `spec_encoded_len` gives, which is at most `MAX_COMMAND_BYTES`.
pub proof fn lemma_encoded_len(c: CommandView)
    requires
        c.well_formed(),
    ensures
        spec_encode(c).len() == spec_encoded_len(c),
        spec_encoded_len(c) <= MAX_COMMAND_BYTES,
{
}

/// Reads the colours of one frame from the channel bytes that start at `offset`.
fn read_pixels(buf: &[u8], offset: usize) -> (pixels: Frame)
    requires
        offset + FRAME_BYTES <= buf@.len(),
    ensures
        pixels@ == spec_read_pixels(buf@, offset as int),
{
    let len = buf.len();
    let mut pixels = [RGB8 { r: 0, g: 0, b: 0 }; MATRIX_PIXEL_COUNT];
    for i in 0..MATRIX_PIXEL_COUNT
        invariant
            len == buf@.len(),
            offset + FRAME_BYTES <= len,
            pixels@.len() == MATRIX_PIXEL_COUNT,
            forall|j: int|
                0 <= j < i ==> #[trigger] pixels@[j] == spec_read_pixels(buf@, offset as int)[j],
    {
        pixels[i] = RGB8 {
            r: buf[offset + i * 3],
            g: buf[offset + i * 3 + 1],
            b: buf[offset + i * 3 + 2],
        };
    }
    assert(pixels@ =~= spec_read_pixels(buf@, offset as int));
    pixels
}

impl Command {
    /// Writes the command's wire bytes at the start of `buf` and returns how
    /// many bytes it wrote; the rest of `buf` is left as it was.
    pub fn encode(&self, buf: &mut [u8]) -> (n: usize)
        requires
            spec_encoded_len(self@) <= old(buf)@.len(),
        ensures
            n == spec_encoded_len(self@),
            final(buf)@.len() == old(buf)@.len(),
            final(buf)@.take(n as int) == spec_encode(self@),
            final(buf)@.skip(n as int) == old(buf)@.skip(n as int),
    {
        proof {
            lemma_encoded_len(self@);
        }
        match self {
            Command::SetFrame(frame) => {
                buf[0] = TAG_SET_FRAME;
                let ghost mid = buf@;
                write_pixels(buf, 1, frame);
                assert(buf@.take(1) =~= mid.take(1));
                assert(buf@.take(1 + FRAME_BYTES) =~= buf@.take(1) + buf@.subrange(
                    1,
                    1 + FRAME_BYTES,
                ));
                assert(buf@.take(1 + FRAME_BYTES) =~= spec_encode(self@));
                assert(buf@.skip(1 + FRAME_BYTES) =~= old(buf)@.skip(1 + FRAME_BYTES));
                1 + FRAME_BYTES
            },
            Command::SetBrightness(brightness) => {
                buf[0] = TAG_SET_BRIGHTNESS;
                buf[1] = *brightness;
                assert(buf@.take(2) =~= spec_encode(self@));
                assert(buf@.skip(2) =~= old(buf)@.skip(2));
                2
            },
            Command::SelectAnimation(animation) => {
                buf[0] = TAG_SELECT_ANIMATION;
                buf[1] = *animation;
                assert(buf@.take(2) =~= spec_encode(self@));
                assert(buf@.skip(2) =~= old(buf)@.skip(2));
                2
            },
            Command::UploadAnimationStart { frame_count, fps } => {
                buf[0] = TAG_UPLOAD_START;
                buf[1] = *frame_count;
                buf[2] = *fps;
                assert(buf@.take(3) =~= spec_encode(self@));
                assert(buf@.skip(3) =~= old(buf)@.skip(3));
                3
            },
            Command::UploadAnimationFrame { index, frame } => {
                buf[0] = TAG_UPLOAD_FRAME;
                buf[1] = *index;
                let ghost mid = buf@;
                write_pixels(buf, 2, frame);
                assert(buf@.take(2) =~= mid.take(2));
                assert(buf@.take(2 + FRAME_BYTES) =~= buf@.take(2) + buf@.subrange(
                    2,
                    2 + FRAME_BYTES,
                ));
                assert(buf@.take(2 + FRAME_BYTES) =~= spec_encode(self@));
                assert(buf@.skip(2 + FRAME_BYTES) =~= old(buf)@.skip(2 + FRAME_BYTES));
                2 + FRAME_BYTES
            },
            Command::UploadAnimationEnd => {
                buf[0] = TAG_UPLOAD_END;
                assert(buf@.take(1) =~= spec_encode(self@));
                assert(buf@.skip(1) =~= old(buf)@.skip(1));
                1
            },
            Command::PlayUploadedAnimation => {
                buf[0] = TAG_PLAY_UPLOADED;
                assert(buf@.take(1) =~= spec_encode(self@));
                assert(buf@.skip(1) =~= old(buf)@.skip(1));
                1
            },
        }
    }

    /// Reads the command that `buf` starts with; bytes after it are ignored.
    /// Fails with `UnknownTag` when the first byte is no command's tag, and
    /// with `TooShort` when `buf` ends before the command's fields do.
    pub fn decode(buf: &[u8]) -> (res: Result<Command, DecodeError>)
        requires
            buf@.len() >= 1,
        ensures
            match res {
                Ok(c) => spec_decode(buf@) == Ok::<CommandView, DecodeError>(c@),
                Err(e) => spec_decode(buf@) == Err::<CommandView, DecodeError>(e),
            },
    {
        let tag = buf[0];
        if tag == TAG_SET_FRAME {
            if buf.len() < 1 + FRAME_BYTES {
                return Err(DecodeError::TooShort);
            }
            Ok(Command::SetFrame(read_pixels(buf, 1)))
        } else if tag == TAG_SET_BRIGHTNESS {
            if buf.len() < 2 {
                return Err(DecodeError::TooShort);
            }
            Ok(Command::SetBrightness(buf[1]))
        } else if tag == TAG_SELECT_ANIMATION {
            if buf.len() < 2 {
                return Err(DecodeError::TooShort);
            }
            Ok(Command::SelectAnimation(buf[1]))
        } else if tag == TAG_UPLOAD_START {
            if buf.len() < 3 {
                return Err(DecodeError::TooShort);
            }
            Ok(Command::UploadAnimationStart { frame_count: buf[1], fps: buf[2] })
        } else if tag == TAG_UPLOAD_FRAME {
            if buf.len() < 2 + FRAME_BYTES {
                return Err(DecodeError::TooShort);
            }
            Ok(Command::UploadAnimationFrame { index: buf[1], frame: read_pixels(buf, 2) })
        } else if tag == TAG_UPLOAD_END {
            Ok(Command::UploadAnimationEnd)
        } else if tag == TAG_PLAY_UPLOADED {
            Ok(Command::PlayUploadedAnimation)
        } else {
            Err(DecodeError::UnknownTag(tag))
        }
    }
}

/// Reading a frame back from its channel bytes gives the frame, whatever
/// stands before and after them.
proof fn lemma_read_pixel_bytes(pixels: Seq<RGB8>, before: Seq<u8>, after: Seq<u8>)
    requires
        pixels.len() == MATRIX_PIXEL_COUNT,
    ensures
        spec_read_pixels(before + spec_pixel_bytes(pixels) + after, before.len() as int) == pixels,
{
    let bytes = before + spec_pixel_bytes(pixels) + after;
    let off = before.len() as int;
    assert forall|i: int| 0 <= i < MATRIX_PIXEL_COUNT implies #[trigger] spec_read_pixels(
        bytes,
        off,
    )[i] == pixels[i] by {
        assert((3 * i) / 3 == i && (3 * i) % 3 == 0);
        assert((3 * i + 1) / 3 == i && (3 * i + 1) % 3 == 1);
        assert((3 * i + 2) / 3 == i && (3 * i + 2) % 3 == 2);
        assert(bytes[off + 3 * i] == spec_pixel_bytes(pixels)[3 * i]);
        assert(bytes[off + 3 * i + 1] == spec_pixel_bytes(pixels)[3 * i + 1]);
        assert(bytes[off + 3 * i + 2] == spec_pixel_bytes(pixels)[3 * i + 2]);
    }
    assert(spec_read_pixels(bytes, off) =~= pixels);
}

/// The channel bytes of the frame read from `bytes` at `offset` are the bytes
/// it was read from.
proof fn lemma_pixel_bytes_of_read(bytes: Seq<u8>, offset: int)
    requires
        0 <= offset,
        offset + FRAME_BYTES <= bytes.len(),
    ensures
        spec_pixel_bytes(spec_read_pixels(bytes, offset)) == bytes.subrange(
            offset,
            offset + FRAME_BYTES,
        ),
{
    let px = spec_read_pixels(bytes, offset);
    assert forall|k: int| 0 <= k < FRAME_BYTES implies #[trigger] spec_pixel_bytes(px)[k]
        == bytes.subrange(offset, offset + FRAME_BYTES)[k] by {
        let i = k / 3;
        assert(0 <= i < MATRIX_PIXEL_COUNT);
        assert(k == 3 * i + k % 3);
    }
    assert(spec_pixel_bytes(px) =~= bytes.subrange(offset, offset + FRAME_BYTES));
}

/// Decoding the encoding of a well-formed command gives the command back,
/// whatever bytes follow it in the buffer.
pub proof fn lemma_decode_encode(c: CommandView, rest: Seq<u8>)
    requires
        c.well_formed(),
    ensures
        spec_decode(spec_encode(c) + rest) == Ok::<CommandView, DecodeError>(c),
{
    let bytes = spec_encode(c) + rest;
    match c {
        CommandView::SetFrame(f) => {
            lemma_read_pixel_bytes(f, seq![TAG_SET_FRAME], rest);
            assert(bytes =~= seq![TAG_SET_FRAME] + spec_pixel_bytes(f) + rest);
        },
        CommandView::UploadAnimationFrame { index, frame } => {
            lemma_read_pixel_bytes(frame, seq![TAG_UPLOAD_FRAME, index], rest);
            assert(bytes =~= seq![TAG_UPLOAD_FRAME, index] + spec_pixel_bytes(frame) + rest);
        },
        _ => {},
    }
}

/// A byte string that decodes to a command starts with that command's
/// encoding: every command has exactly one encoding.
pub proof fn lemma_encode_decode(bytes: Seq<u8>)
    requires
        bytes.len() >= 1,
    ensures
        spec_decode(bytes) matches Ok(c) ==> c.well_formed() && spec_encoded_len(c)
            <= bytes.len() && spec_encode(c) == bytes.take(spec_encoded_len(c) as int),
{
    if let Ok(c) = spec_decode(bytes) {
        lemma_encoded_len(c);
        match c {
            CommandView::SetFrame(f) => {
                lemma_pixel_bytes_of_read(bytes, 1);
                assert(spec_encode(c) =~= bytes.take(1 + FRAME_BYTES));
            },
            CommandView::UploadAnimationFrame { index, frame } => {
                lemma_pixel_bytes_of_read(bytes, 2);
                assert(spec_encode(c) =~= bytes.take(2 + FRAME_BYTES));
            },
            _ => {
                assert(spec_encode(c) =~= bytes.take(spec_encoded_len(c) as int));
            },
        }
    }
}

/// Two commands with the same view are the same command.
pub proof fn lemma_command_view_injective(a: Command, b: Command)
    requires
        a@ == b@,
    ensures
        a == b,
{
    match (a, b) {
        (Command::SetFrame(fa), Command::SetFrame(fb)) => {
            assert(fa =~= fb);
        },
        (
            Command::UploadAnimationFrame { index: ia, frame: fa },
            Command::UploadAnimationFrame { index: ib, frame: fb },
        ) => {
            assert(fa@ == fb@);
            assert(fa =~= fb);
        },
        _ => {},
    }
}

/// A frame travels the same way in both commands that carry one: after the
/// tag (and, for an upload frame, the index byte), pixel `i` is the three
/// bytes red, green, blue at offset `3 * i`, so the frame bytes of an upload
/// frame are exactly the frame bytes of a `SetFrame` of the same frame.
pub proof fn lemma_frame_bytes_layout(frame: Seq<RGB8>, index: u8)
    requires
        frame.len() == MATRIX_PIXEL_COUNT,
    ensures
        ({
            let set = spec_encode(CommandView::SetFrame(frame));
            let up = spec_encode(CommandView::UploadAnimationFrame { index, frame });
            &&& set.len() == 1 + FRAME_BYTES
            &&& up.len() == 2 + FRAME_BYTES
            &&& set[0] == TAG_SET_FRAME
            &&& up[0] == TAG_UPLOAD_FRAME
            &&& up[1] == index
            &&& forall|i: int|
                0 <= i < MATRIX_PIXEL_COUNT ==> {
                    &&& set[1 + 3 * i] == (#[trigger] frame[i]).r
                    &&& set[2 + 3 * i] == frame[i].g
                    &&& set[3 + 3 * i] == frame[i].b
                    &&& up[2 + 3 * i] == frame[i].r
                    &&& up[3 + 3 * i] == frame[i].g
                    &&& up[4 + 3 * i] == frame[i].b
                }
            &&& up.subrange(2, 2 + FRAME_BYTES) == set.subrange(1, 1 + FRAME_BYTES)
        }),
{
    let set = spec_encode(CommandView::SetFrame(frame));
    let up = spec_encode(CommandView::UploadAnimationFrame { index, frame });
    let pb = spec_pixel_bytes(frame);
    assert forall|i: int| 0 <= i < MATRIX_PIXEL_COUNT implies {
        &&& set[1 + 3 * i] == (#[trigger] frame[i]).r
        &&& set[2 + 3 * i] == frame[i].g
        &&& set[3 + 3 * i] == frame[i].b
        &&& up[2 + 3 * i] == frame[i].r
        &&& up[3 + 3 * i] == frame[i].g
        &&& up[4 + 3 * i] == frame[i].b
    } by {
        assert((3 * i) / 3 == i && (3 * i) % 3 == 0);
        assert((3 * i + 1) / 3 == i && (3 * i + 1) % 3 == 1);
        assert((3 * i + 2) / 3 == i && (3 * i + 2) % 3 == 2);
        assert(set[1 + 3 * i] == pb[3 * i]);
        assert(set[2 + 3 * i] == pb[3 * i + 1]);
        assert(set[3 + 3 * i] == pb[3 * i + 2]);
        assert(up[2 + 3 * i] == pb[3 * i]);
        assert(up[3 + 3 * i] == pb[3 * i + 1]);
        assert(up[4 + 3 * i] == pb[3 * i + 2]);
    }
    assert(up.subrange(2, 2 + FRAME_BYTES) =~= pb);
    assert(set.subrange(1, 1 + FRAME_BYTES) =~= pb);
}

/// Decoding reads pixel `i` of a carried frame from the three bytes red,
/// green, blue at offset `3 * i` after the tag (and the index byte of an
/// upload frame), and reads the other fields from the bytes that follow the
/// tag in order.
pub proof fn lemma_decode_reads_fields(bytes: Seq<u8>)
    requires
        bytes.len() >= 1,
    ensures
        spec_decode(bytes) matches Ok(CommandView::SetFrame(f)) ==> bytes[0] == TAG_SET_FRAME
            && f.len() == MATRIX_PIXEL_COUNT && forall|i: int|
            0 <= i < MATRIX_PIXEL_COUNT ==> #[trigger] f[i] == (RGB8 {
                r: bytes[1 + 3 * i],
                g: bytes[2 + 3 * i],
                b: bytes[3 + 3 * i],
            }),
        spec_decode(bytes) matches Ok(CommandView::UploadAnimationFrame { index, frame }) ==> bytes[0]
            == TAG_UPLOAD_FRAME && index == bytes[1] && frame.len() == MATRIX_PIXEL_COUNT
            && forall|i: int|
            0 <= i < MATRIX_PIXEL_COUNT ==> #[trigger] frame[i] == (RGB8 {
                r: bytes[2 + 3 * i],
                g: bytes[3 + 3 * i],
                b: bytes[4 + 3 * i],
            }),
        spec_decode(bytes) matches Ok(CommandView::SetBrightness(b)) ==> bytes[0]
            == TAG_SET_BRIGHTNESS && b == bytes[1],
        spec_decode(bytes) matches Ok(CommandView::SelectAnimation(a)) ==> bytes[0]
            == TAG_SELECT_ANIMATION && a == bytes[1],
        spec_decode(bytes) matches Ok(CommandView::UploadAnimationStart { frame_count, fps })
            ==> bytes[0] == TAG_UPLOAD_START && frame_count == bytes[1] && fps == bytes[2],
        spec_decode(bytes) matches Ok(CommandView::UploadAnimationEnd) ==> bytes[0]
            == TAG_UPLOAD_END,
        spec_decode(bytes) matches Ok(CommandView::PlayUploadedAnimation) ==> bytes[0]
            == TAG_PLAY_UPLOADED,
{
}

} // verus!
