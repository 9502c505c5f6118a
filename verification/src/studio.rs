use vstd::prelude::*;

use crate::color::{Frame, RGB8};
use crate::geometry::MATRIX_PIXEL_COUNT;
use crate::protocol::{Command, CommandView};

verus! {

/// A pixel colour as the studio's editor hands it over.
#[derive(Clone, Copy, Debug, PartialEq, Eq, Structural)]
pub struct RGB {
    pub r: u8,
    pub g: u8,
    pub b: u8,
}

/// The LED colour of an editor pixel.
pub open spec fn spec_led_color(p: RGB) -> RGB8 {
    RGB8 { r: p.r, g: p.g, b: p.b }
}

/// The frame that an editor layout stands for.
pub open spec fn spec_layout_frame(layout: Seq<RGB>) -> Seq<RGB8> {
    layout.map_values(|p: RGB| spec_led_color(p))
}

/// The message with which a layout of the wrong size is refused.
pub open spec fn spec_layout_size_error() -> Seq<char> {
    "Layout size does not match MATRIX_PIXEL_COUNT"@
}

/// Converts an editor layout into a frame; fails when the layout does not
/// hold exactly one pixel per LED.
pub fn to_frame(pixels: &[RGB]) -> (res: Result<Frame, String>)
    ensures
        match res {
            Ok(frame) => pixels@.len() == MATRIX_PIXEL_COUNT && frame@ == spec_layout_frame(
                pixels@,
            ) && forall|i: int|
                0 <= i < MATRIX_PIXEL_COUNT ==> #[trigger] frame@[i] == (RGB8 {
                    r: pixels@[i].r,
                    g: pixels@[i].g,
                    b: pixels@[i].b,
                }),
            Err(msg) => pixels@.len() != MATRIX_PIXEL_COUNT && msg@ == spec_layout_size_error(),
        },
{
    if pixels.len() != MATRIX_PIXEL_COUNT {
        return Err("Layout size does not match MATRIX_PIXEL_COUNT".to_owned());
    }
    let mut frame = [RGB8 { r: 0, g: 0, b: 0 }; MATRIX_PIXEL_COUNT];
    for i in 0..MATRIX_PIXEL_COUNT
        invariant
            pixels@.len() == MATRIX_PIXEL_COUNT,
            frame@.len() == MATRIX_PIXEL_COUNT,
            forall|j: int| 0 <= j < i ==> #[trigger] frame@[j] == spec_led_color(pixels@[j]),
    {
        let src = pixels[i];
        frame[i] = RGB8 { r: src.r, g: src.g, b: src.b };
    }
    assert(frame@ =~= spec_layout_frame(pixels@));
    Ok(frame)
}

/// The commands that send `frames` to the device: nothing for no frame, the
/// frame itself for one frame, and otherwise an upload (start with the frame
/// count and rate, each frame with its index, end) followed by the order to
/// play it. Counts, indices and rate are sent as their low byte.
pub open spec fn spec_upload_commands(frames: Seq<Seq<RGB8>>, fps: u32) -> Seq<CommandView> {
    let n = frames.len();
    if n == 0 {
        Seq::empty()
    } else if n == 1 {
        seq![CommandView::SetFrame(frames[0])]
    } else {
        seq![CommandView::UploadAnimationStart { frame_count: n as u8, fps: fps as u8 }]
            + spec_frame_commands(frames) + seq![
            CommandView::UploadAnimationEnd,
            CommandView::PlayUploadedAnimation,
        ]
    }
}

/// One upload-frame command per frame, with the frame's index.
pub open spec fn spec_frame_commands(frames: Seq<Seq<RGB8>>) -> Seq<CommandView> {
    Seq::new(
        frames.len(),
        |i: int| CommandView::UploadAnimationFrame { index: i as u8, frame: frames[i] },
    )
}

/// The views of a list of commands.
pub open spec fn spec_command_views(cmds: Seq<Command>) -> Seq<CommandView> {
    cmds.map_values(|c: Command| c@)
}

/// The views of a list of frames.
pub open spec fn spec_frame_views(frames: Seq<Frame>) -> Seq<Seq<RGB8>> {
    frames.map_values(|f: Frame| f@)
}

/// The commands that send `frames` at `fps` frames per second to the device.
pub fn upload_commands(frames: &Vec<Frame>, fps: u32) -> (cmds: Vec<Command>)
    ensures
        spec_command_views(cmds@) == spec_upload_commands(spec_frame_views(frames@), fps),
        frames@.len() == 1 ==> cmds@ == seq![Command::SetFrame(frames@[0])],
{
    let n = frames.len();
    let ghost fv = spec_frame_views(frames@);
    let mut cmds: Vec<Command> = Vec::new();
    if n == 0 {
        assert(spec_command_views(cmds@) =~= spec_upload_commands(fv, fps));
        return cmds;
    }
    if n == 1 {
        cmds.push(Command::SetFrame(frames[0]));
        assert(cmds@ =~= seq![Command::SetFrame(frames@[0])]);
        assert(spec_command_views(cmds@) =~= spec_upload_commands(fv, fps));
        return cmds;
    }
    cmds.push(Command::UploadAnimationStart { frame_count: n as u8, fps: fps as u8 });
    for i in 0..n
        invariant
            n == frames@.len(),
            n >= 2,
            fv == spec_frame_views(frames@),
            spec_command_views(cmds@) =~= seq![
                CommandView::UploadAnimationStart { frame_count: n as u8, fps: fps as u8 },
            ] + spec_frame_commands(fv).take(i as int),
    {
        let ghost before = cmds@;
        let cmd = Command::UploadAnimationFrame { index: i as u8, frame: frames[i] };
        assert(cmd@ == spec_frame_commands(fv)[i as int]);
        cmds.push(cmd);
        assert(spec_command_views(cmds@) =~= spec_command_views(before).push(cmd@));
        assert(spec_frame_commands(fv).take(i + 1) =~= spec_frame_commands(fv).take(
            i as int,
        ).push(spec_frame_commands(fv)[i as int]));
    }
    let ghost before = cmds@;
    cmds.push(Command::UploadAnimationEnd);
    cmds.push(Command::PlayUploadedAnimation);
    assert(spec_command_views(cmds@) =~= spec_command_views(before).push(
        CommandView::UploadAnimationEnd,
    ).push(CommandView::PlayUploadedAnimation));
    assert(spec_frame_commands(fv).take(n as int) =~= spec_frame_commands(fv));
    assert(spec_command_views(cmds@) =~= spec_upload_commands(fv, fps));
    cmds
}

/// Whether every layout holds exactly one pixel per LED.
pub open spec fn spec_layouts_fit(layouts: Seq<Vec<RGB>>) -> bool {
    forall|i: int| 0 <= i < layouts.len() ==> (#[trigger] layouts[i])@.len() == MATRIX_PIXEL_COUNT
}

/// The frames that the layouts stand for.
pub open spec fn spec_layout_frames(layouts: Seq<Vec<RGB>>) -> Seq<Seq<RGB8>> {
    layouts.map_values(|l: Vec<RGB>| spec_layout_frame(l@))
}

/// Converts every editor layout into a frame; fails, before anything is
/// sent, as soon as one layout has the wrong size.
pub fn frames_from_layouts(layouts: &Vec<Vec<RGB>>) -> (res: Result<Vec<Frame>, String>)
    ensures
        match res {
            Ok(frames) => spec_layouts_fit(layouts@) && spec_frame_views(frames@)
                == spec_layout_frames(layouts@),
            Err(msg) => !spec_layouts_fit(layouts@) && msg@ == spec_layout_size_error(),
        },
{
    let n = layouts.len();
    let mut frames: Vec<Frame> = Vec::new();
    for i in 0..n
        invariant
            n == layouts@.len(),
            frames@.len() == i,
            forall|j: int| 0 <= j < i ==> (#[trigger] layouts@[j])@.len() == MATRIX_PIXEL_COUNT,
            forall|j: int|
                0 <= j < i ==> #[trigger] frames@[j]@ == spec_layout_frame(layouts@[j]@),
    {
        match to_frame(layouts[i].as_slice()) {
            Ok(frame) => frames.push(frame),
            Err(msg) => {
                return Err(msg);
            },
        }
    }
    assert(spec_frame_views(frames@) =~= spec_layout_frames(layouts@));
    Ok(frames)
}

/// A layout becomes a frame pixel by pixel, in place: entry `i` of the frame
/// has the red, green and blue of pixel `i` of the layout.
pub proof fn lemma_layout_frame_in_place(layout: Seq<RGB>)
    ensures
        spec_layout_frame(layout).len() == layout.len(),
        forall|i: int|
            0 <= i < layout.len() ==> #[trigger] spec_layout_frame(layout)[i] == (RGB8 {
                r: layout[i].r,
                g: layout[i].g,
                b: layout[i].b,
            }),
{
}

/// Every layout becomes the frame at the same position, each in place.
pub proof fn lemma_layout_frames_in_place(layouts: Seq<Vec<RGB>>)
    ensures
        spec_layout_frames(layouts).len() == layouts.len(),
        forall|k: int, i: int|
            0 <= k < layouts.len() && 0 <= i < layouts[k]@.len() ==> #[trigger] spec_layout_frames(
                layouts,
            )[k][i] == (RGB8 { r: layouts[k]@[i].r, g: layouts[k]@[i].g, b: layouts[k]@[i].b }),
{
}

/// The studio sends the frames as given: nothing for no frame; for one
/// frame, that frame unchanged; for more, an upload start with their count
/// and rate (low bytes), then frame `j` unchanged at index `j` (low byte),
/// then the end and the order to play.
pub proof fn lemma_upload_commands_carry_frames(frames: Seq<Seq<RGB8>>, fps: u32)
    ensures
        frames.len() == 0 ==> spec_upload_commands(frames, fps).len() == 0,
        frames.len() == 1 ==> spec_upload_commands(frames, fps) == seq![
            CommandView::SetFrame(frames[0]),
        ],
        frames.len() >= 2 ==> {
            let cmds = spec_upload_commands(frames, fps);
            let n = frames.len() as int;
            &&& cmds.len() == n + 3
            &&& cmds[0] == CommandView::UploadAnimationStart {
                frame_count: n as u8,
                fps: fps as u8,
            }
            &&& forall|j: int|
                0 <= j < n ==> #[trigger] cmds[j + 1] == CommandView::UploadAnimationFrame {
                    index: j as u8,
                    frame: frames[j],
                }
            &&& cmds[n + 1] == CommandView::UploadAnimationEnd
            &&& cmds[n + 2] == CommandView::PlayUploadedAnimation
        },
{
}

} // verus!
