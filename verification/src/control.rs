use vstd::prelude::*;

use crate::animation::{spec_black_frame, AnimationView, StoredAnimation};
use crate::color::RGB8;
use crate::protocol::{Command, CommandView, DecodeError, MAX_ANIMATION_FRAMES};
use crate::studio::{spec_frame_commands, spec_upload_commands};

verus! {

/// What the device keeps between commands received from the studio app: the
/// frame count announced by the last upload start, and the uploaded animation.
pub struct ControlState {
    pub expected_frames: u8,
    pub animation: StoredAnimation,
}

/// A control state as plain values.
pub struct ControlView {
    pub expected_frames: u8,
    pub animation: AnimationView,
}

impl View for ControlState {
    type V = ControlView;

    open spec fn view(&self) -> ControlView {
        ControlView { expected_frames: self.expected_frames, animation: self.animation@ }
    }
}

/// What the device does with a received payload.
#[derive(Debug)]
pub enum ControlAction {
    /// Hand the command on to the display loop.
    Forward(Command),
    /// The command was an upload step and has been applied to the stored animation.
    Stored,
    /// The payload was not a command.
    Rejected(DecodeError),
}

/// Whether a command belongs to the upload of an animation, which the
/// connection handler applies itself instead of handing it on.
pub open spec fn spec_is_upload_step(c: CommandView) -> bool {
    match c {
        CommandView::UploadAnimationStart { .. } => true,
        CommandView::UploadAnimationFrame { .. } => true,
        CommandView::UploadAnimationEnd => true,
        _ => false,
    }
}

/// The control state after receiving a command. An upload start records how
/// many frames will come (at most `MAX_ANIMATION_FRAMES`), empties the stored
/// animation and sets its rate (at least 1 fps); an upload frame stores the
/// frame at its index; an upload end makes the announced frames playable.
/// Other commands leave the state as it is.
pub open spec fn spec_receive(s: ControlView, c: CommandView) -> ControlView {
    match c {
        CommandView::UploadAnimationStart { frame_count, fps } => ControlView {
            expected_frames: if frame_count < MAX_ANIMATION_FRAMES {
                frame_count
            } else {
                MAX_ANIMATION_FRAMES as u8
            },
            animation: AnimationView {
                frames: s.animation.frames,
                frame_count: 0,
                fps: if fps < 1 {
                    1
                } else {
                    fps
                },
            },
        },
        CommandView::UploadAnimationFrame { index, frame } => ControlView {
            expected_frames: s.expected_frames,
            animation: AnimationView {
                frames: s.animation.frames.update(index as int, frame),
                frame_count: s.animation.frame_count,
                fps: s.animation.fps,
            },
        },
        CommandView::UploadAnimationEnd => ControlView {
            expected_frames: s.expected_frames,
            animation: AnimationView {
                frames: s.animation.frames,
                frame_count: s.expected_frames as int,
                fps: s.animation.fps,
            },
        },
        _ => s,
    }
}

/// Whether the device can apply a received command without a fault: an
/// upload frame must name a slot of the stored animation.
pub open spec fn spec_receivable(c: CommandView) -> bool {
    c matches CommandView::UploadAnimationFrame { index, .. } ==> index < MAX_ANIMATION_FRAMES
}

/// The bounds that every control state reached from the start keeps: at
/// most `MAX_ANIMATION_FRAMES` frames announced and playable, a rate of at
/// least 1 fps, and one slot per storable frame.
pub open spec fn spec_control_inv(s: ControlView) -> bool {
    &&& s.expected_frames <= MAX_ANIMATION_FRAMES
    &&& 0 <= s.animation.frame_count <= MAX_ANIMATION_FRAMES
    &&& s.animation.fps >= 1
    &&& s.animation.frames.len() == MAX_ANIMATION_FRAMES
}

impl ControlState {
    /// The state of a device that has received nothing yet.
    pub fn new() -> (s: Self)
        ensures
            s.expected_frames == 0,
            s.animation.frame_count == 0,
            s.animation.fps == 30,
            s.animation@.frames.len() == MAX_ANIMATION_FRAMES,
            forall|i: int|
                0 <= i < MAX_ANIMATION_FRAMES ==> #[trigger] s.animation@.frames[i]
                    == spec_black_frame(),
            spec_control_inv(s@),
    {
        ControlState { expected_frames: 0, animation: StoredAnimation::new() }
    }

    /// Applies a decoded payload: upload steps change the stored animation,
    /// other commands are handed on unchanged, and a decoding error is
    /// reported.
    pub fn handle(&mut self, decoded: Result<Command, DecodeError>) -> (action: ControlAction)
        requires
            decoded matches Ok(c) ==> spec_receivable(c@),
        ensures
            match decoded {
                Ok(c) => {
                    &&& final(self)@ == spec_receive(old(self)@, c@)
                    &&& if spec_is_upload_step(c@) {
                        action is Stored
                    } else {
                        action == ControlAction::Forward(c)
                    }
                },
                Err(e) => {
                    &&& final(self)@ == old(self)@
                    &&& action == ControlAction::Rejected(e)
                },
            },
            spec_control_inv(old(self)@) ==> spec_control_inv(final(self)@),
    {
        proof {
            if let Ok(c) = decoded {
                if spec_control_inv(old(self)@) {
                    lemma_receive_keeps_inv(old(self)@, c@);
                }
            }
        }
        match decoded {
            Ok(Command::UploadAnimationStart { frame_count, fps }) => {
                self.expected_frames = if frame_count < MAX_ANIMATION_FRAMES as u8 {
                    frame_count
                } else {
                    MAX_ANIMATION_FRAMES as u8
                };
                self.animation.frame_count = 0;
                self.animation.fps = if fps < 1 {
                    1
                } else {
                    fps
                };
                ControlAction::Stored
            },
            Ok(Command::UploadAnimationEnd) => {
                self.animation.frame_count = self.expected_frames as usize;
                ControlAction::Stored
            },
            Ok(Command::UploadAnimationFrame { index, frame }) => {
                self.animation.frames[index as usize] = frame;
                assert(self.animation@.frames =~= old(self).animation@.frames.update(
                    index as int,
                    frame@,
                ));
                ControlAction::Stored
            },
            Ok(cmd) => ControlAction::Forward(cmd),
            Err(e) => ControlAction::Rejected(e),
        }
    }
}

/// The control state after receiving the commands in order.
pub open spec fn spec_receive_all(s: ControlView, cmds: Seq<CommandView>) -> ControlView
    decreases cmds.len(),
{
    if cmds.len() == 0 {
        s
    } else {
        spec_receive(spec_receive_all(s, cmds.drop_last()), cmds.last())
    }
}

/// Receiving two lists of commands one after the other is receiving their
/// concatenation.
pub proof fn lemma_receive_all_append(s: ControlView, a: Seq<CommandView>, b: Seq<CommandView>)
    ensures
        spec_receive_all(s, a + b) == spec_receive_all(spec_receive_all(s, a), b),
    decreases b.len(),
{
    if b.len() == 0 {
        assert(a + b =~= a);
    } else {
        lemma_receive_all_append(s, a, b.drop_last());
        assert((a + b).drop_last() =~= a + b.drop_last());
        assert((a + b).last() == b.last());
    }
}

/// Receiving the first `k` upload-frame commands of `frames` stores each of
/// those frames at its index and changes nothing else.
proof fn lemma_receive_frames(s: ControlView, frames: Seq<Seq<RGB8>>, k: int)
    requires
        0 <= k <= frames.len() <= MAX_ANIMATION_FRAMES,
        s.animation.frames.len() == MAX_ANIMATION_FRAMES,
    ensures
        ({
            let t = spec_receive_all(s, spec_frame_commands(frames).take(k));
            &&& t.expected_frames == s.expected_frames
            &&& t.animation.frame_count == s.animation.frame_count
            &&& t.animation.fps == s.animation.fps
            &&& t.animation.frames.len() == MAX_ANIMATION_FRAMES
            &&& forall|i: int| 0 <= i < k ==> #[trigger] t.animation.frames[i] == frames[i]
            &&& forall|i: int|
                k <= i < MAX_ANIMATION_FRAMES ==> #[trigger] t.animation.frames[i]
                    == s.animation.frames[i]
        }),
    decreases k,
{
    let cmds = spec_frame_commands(frames).take(k);
    if k > 0 {
        lemma_receive_frames(s, frames, k - 1);
        assert(cmds.drop_last() =~= spec_frame_commands(frames).take(k - 1));
        assert(cmds.last() == CommandView::UploadAnimationFrame {
            index: (k - 1) as u8,
            frame: frames[k - 1],
        });
        assert(((k - 1) as u8) as int == k - 1);
    } else {
        assert(cmds =~= Seq::<CommandView>::empty());
    }
}

/// Sending an animation of two to `MAX_ANIMATION_FRAMES` frames with the
/// studio's upload commands leaves the connection handler's stored animation
/// holding exactly those frames, with a frame count that makes all of them
/// playable, at the requested rate (its low byte, and at least 1 fps); every
/// command of the upload can be received, and the only one that the handler
/// hands on is the final order to play. (The display loop plays the custom
/// animation of its own `DeviceStorage`, which this state does not feed.)
pub proof fn lemma_upload_stores_animation(s: ControlView, frames: Seq<Seq<RGB8>>, fps: u32)
    requires
        2 <= frames.len() <= MAX_ANIMATION_FRAMES,
        s.animation.frames.len() == MAX_ANIMATION_FRAMES,
    ensures
        ({
            let cmds = spec_upload_commands(frames, fps);
            let t = spec_receive_all(s, cmds);
            &&& forall|j: int| 0 <= j < cmds.len() ==> spec_receivable(#[trigger] cmds[j])
            &&& forall|j: int|
                0 <= j < cmds.len() ==> (!spec_is_upload_step(#[trigger] cmds[j]) <==> j
                    == cmds.len() - 1)
            &&& cmds.last() == CommandView::PlayUploadedAnimation
            &&& t.expected_frames == frames.len()
            &&& t.animation.frame_count == frames.len()
            &&& t.animation.fps == (if (fps as u8) < 1 {
                1
            } else {
                fps as u8
            })
            &&& t.animation.frames.len() == MAX_ANIMATION_FRAMES
            &&& forall|i: int| 0 <= i < frames.len() ==> #[trigger] t.animation.frames[i] == frames[i]
        }),
{
    let n = frames.len();
    let start = seq![CommandView::UploadAnimationStart { frame_count: n as u8, fps: fps as u8 }];
    let body = spec_frame_commands(frames);
    let tail = seq![CommandView::UploadAnimationEnd, CommandView::PlayUploadedAnimation];
    let cmds = spec_upload_commands(frames, fps);
    assert(cmds == start + body + tail);
    lemma_receive_all_append(s, start + body, tail);
    lemma_receive_all_append(s, start, body);
    let s1 = spec_receive_all(s, start);
    assert(start.drop_last() =~= Seq::<CommandView>::empty());
    assert(spec_receive_all(s, start.drop_last()) == s);
    assert(s1 == spec_receive(s, start[0]));
    assert((n as u8) as int == n);
    lemma_receive_frames(s1, frames, n as int);
    assert(body.take(n as int) =~= body);
    let s2 = spec_receive_all(s1, body);
    assert(tail.drop_last() =~= seq![CommandView::UploadAnimationEnd]);
    let end_only = seq![CommandView::UploadAnimationEnd];
    assert(end_only.drop_last() =~= Seq::<CommandView>::empty());
    assert(spec_receive_all(s2, end_only.drop_last()) == s2);
    assert(spec_receive_all(s2, end_only) == spec_receive(s2, CommandView::UploadAnimationEnd));
    assert(spec_receive_all(s2, tail) == spec_receive(
        spec_receive_all(s2, end_only),
        CommandView::PlayUploadedAnimation,
    ));
    assert forall|j: int| 0 <= j < cmds.len() implies spec_receivable(#[trigger] cmds[j]) && (
    !spec_is_upload_step(cmds[j]) <==> j == cmds.len() - 1) by {
        if 1 <= j < 1 + n {
            assert(cmds[j] == body[j - 1]);
            assert(((j - 1) as u8) as int == j - 1);
        }
    }
}

/// Receiving a command that the device can apply keeps the bounds of
/// `spec_control_inv`.
pub proof fn lemma_receive_keeps_inv(s: ControlView, c: CommandView)
    requires
        spec_control_inv(s),
        spec_receivable(c),
    ensures
        spec_control_inv(spec_receive(s, c)),
{
}

/// Every state reached from a state within the bounds, through commands that
/// the device can apply, is within the bounds; in particular every state
/// reached from `ControlState::new`.
pub proof fn lemma_receive_all_keeps_inv(s: ControlView, cmds: Seq<CommandView>)
    requires
        spec_control_inv(s),
        forall|j: int| 0 <= j < cmds.len() ==> spec_receivable(#[trigger] cmds[j]),
    ensures
        spec_control_inv(spec_receive_all(s, cmds)),
    decreases cmds.len(),
{
    if cmds.len() > 0 {
        let init = cmds.drop_last();
        assert forall|j: int| 0 <= j < init.len() implies spec_receivable(#[trigger] init[j]) by {
            assert(init[j] == cmds[j]);
        }
        lemma_receive_all_keeps_inv(s, init);
        lemma_receive_keeps_inv(spec_receive_all(s, init), cmds.last());
    }
}

/// Whether a command starts or ends an upload.
pub open spec fn spec_is_upload_boundary(c: CommandView) -> bool {
    c is UploadAnimationStart || c is UploadAnimationEnd
}

/// Commands that neither start nor end an upload leave the announced frame
/// count, the playable frame count and the rate as they are.
proof fn lemma_receive_inside_upload(s: ControlView, cmds: Seq<CommandView>)
    requires
        forall|j: int| 0 <= j < cmds.len() ==> !spec_is_upload_boundary(#[trigger] cmds[j]),
    ensures
        spec_receive_all(s, cmds).expected_frames == s.expected_frames,
        spec_receive_all(s, cmds).animation.frame_count == s.animation.frame_count,
        spec_receive_all(s, cmds).animation.fps == s.animation.fps,
    decreases cmds.len(),
{
    if cmds.len() > 0 {
        let init = cmds.drop_last();
        assert forall|j: int| 0 <= j < init.len() implies !spec_is_upload_boundary(
            #[trigger] init[j],
        ) by {
            assert(init[j] == cmds[j]);
        }
        lemma_receive_inside_upload(s, init);
        assert(!spec_is_upload_boundary(cmds.last()));
    }
}

/// A half-uploaded animation is never playable: after an upload start for
/// `n` frames at `fps`, and until the next start or end, the stored animation
/// has no playable frame and runs at `fps` (at least 1), with `n` (at most
/// `MAX_ANIMATION_FRAMES`) frames announced; the end then makes exactly the
/// announced frames playable.
pub proof fn lemma_upload_in_progress(s: ControlView, n: u8, fps: u8, cmds: Seq<CommandView>)
    requires
        forall|j: int| 0 <= j < cmds.len() ==> !spec_is_upload_boundary(#[trigger] cmds[j]),
    ensures
        ({
            let during = spec_receive_all(
                spec_receive(s, CommandView::UploadAnimationStart { frame_count: n, fps }),
                cmds,
            );
            let announced = if n < MAX_ANIMATION_FRAMES {
                n as int
            } else {
                MAX_ANIMATION_FRAMES as int
            };
            &&& during.animation.frame_count == 0
            &&& during.animation.fps == (if fps < 1 {
                1
            } else {
                fps
            })
            &&& during.expected_frames == announced
            &&& spec_receive(during, CommandView::UploadAnimationEnd).animation.frame_count
                == announced
        }),
{
    let started = spec_receive(s, CommandView::UploadAnimationStart { frame_count: n, fps });
    lemma_receive_inside_upload(started, cmds);
}

} // verus!
