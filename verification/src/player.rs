use vstd::prelude::*;

use crate::animation::{spec_black_frame, StoredAnimation};
use crate::geometry::spec_chain_order;
use crate::matrix::LedMatrix;
use crate::protocol::{Command, CommandView, MAX_ANIMATION_FRAMES};

verus! {

/// Settings that the device keeps while it runs.
pub struct DeviceStorage {
    /// Brightness in hundredths of full brightness (0 to 100).
    pub brightness_percent: u8,
    /// Current limit of the power supply in milliamperes.
    pub max_amper: u16,
    pub current_animation: u8,
    pub custom_animation: StoredAnimation,
}

impl DeviceStorage {
    /// Full brightness, a 500 mA limit, the first animation, and no custom
    /// animation.
    pub fn new() -> (s: Self)
        ensures
            s.brightness_percent == 100,
            s.max_amper == 500,
            s.current_animation == 0,
            s.custom_animation.frame_count == 0,
            s.custom_animation.fps == 30,
            s.custom_animation@.frames.len() == MAX_ANIMATION_FRAMES,
            forall|i: int|
                0 <= i < MAX_ANIMATION_FRAMES ==> #[trigger] s.custom_animation@.frames[i]
                    == spec_black_frame(),
    {
        DeviceStorage {
            brightness_percent: 100,
            max_amper: 500,
            current_animation: 0,
            custom_animation: StoredAnimation::new(),
        }
    }
}

/// What the display loop shows.
#[derive(Clone, Copy, Debug, PartialEq, Eq, Structural)]
pub enum Mode {
    /// The procedural plasma animation.
    Procedural,
    /// The last frame received from the studio app.
    Live,
    /// The custom animation in the device storage.
    Uploaded,
}

/// The state of the display loop.
pub struct Player {
    pub mode: Mode,
    /// Frames of the procedural animation shown so far.
    pub tick: u32,
    /// Frames of the custom animation shown so far.
    pub anim_idx: usize,
}

/// What the display loop does in one round, besides sending the picture to
/// the LEDs.
#[derive(Clone, Copy, Debug, PartialEq, Eq, Structural)]
pub struct TickPlan {
    /// Tick of the procedural animation whose frame is to be shown, if any.
    pub plasma_tick: Option<u32>,
    /// How long to wait before the next round, in milliseconds.
    pub delay_ms: u64,
}

/// Delay between two frames of the procedural animation (about 60 fps).
pub const PROCEDURAL_DELAY_MS: u64 = 16;

impl Player {
    /// The loop at start-up: showing live frames, at tick 0.
    pub fn new() -> (p: Self)
        ensures
            p.mode == Mode::Live,
            p.tick == 0,
            p.anim_idx == 0,
    {
        Player { mode: Mode::Live, tick: 0, anim_idx: 0 }
    }

    /// Applies a command handed on by the connection handler: a frame is
    /// shown at once and switches to live mode; a brightness (capped at 100)
    /// is stored and the picture sent again; choosing an animation switches
    /// to the procedural animation; the order to play switches to the custom
    /// animation from its first frame. Upload steps are ignored here.
    pub fn apply_command(&mut self, cmd: Command, matrix: &mut LedMatrix, storage: &mut DeviceStorage)
        ensures
            final(self).tick == old(self).tick,
            final(storage).max_amper == old(storage).max_amper,
            final(storage).current_animation == old(storage).current_animation,
            final(storage).custom_animation@ == old(storage).custom_animation@,
            match cmd@ {
                CommandView::SetFrame(f) => {
                    &&& final(self).mode == Mode::Live
                    &&& final(self).anim_idx == old(self).anim_idx
                    &&& final(matrix)@.pixels == spec_chain_order(f)
                    &&& final(matrix)@.should_refresh
                    &&& final(storage).brightness_percent == old(storage).brightness_percent
                },
                CommandView::SetBrightness(b) => {
                    &&& final(self).mode == old(self).mode
                    &&& final(self).anim_idx == old(self).anim_idx
                    &&& final(matrix)@.pixels == old(matrix)@.pixels
                    &&& final(matrix)@.should_refresh
                    &&& final(storage).brightness_percent == (if b < 100 {
                        b
                    } else {
                        100
                    })
                },
                CommandView::SelectAnimation(_) => {
                    &&& final(self).mode == Mode::Procedural
                    &&& final(self).anim_idx == old(self).anim_idx
                    &&& final(matrix)@ == old(matrix)@
                    &&& final(storage).brightness_percent == old(storage).brightness_percent
                },
                CommandView::PlayUploadedAnimation => {
                    &&& final(self).mode == Mode::Uploaded
                    &&& final(self).anim_idx == 0
                    &&& final(matrix)@ == old(matrix)@
                    &&& final(storage).brightness_percent == old(storage).brightness_percent
                },
                _ => {
                    &&& final(self).mode == old(self).mode
                    &&& final(self).anim_idx == old(self).anim_idx
                    &&& final(matrix)@ == old(matrix)@
                    &&& final(storage).brightness_percent == old(storage).brightness_percent
                },
            },
    {
        match cmd {
            Command::SetFrame(pixels) => {
                matrix.set_frame(&pixels);
                self.mode = Mode::Live;
            },
            Command::SetBrightness(b) => {
                storage.brightness_percent = if b < 100 {
                    b
                } else {
                    100
                };
                matrix.request_refresh();
            },
            Command::SelectAnimation(_) => {
                self.mode = Mode::Procedural;
            },
            Command::PlayUploadedAnimation => {
                self.mode = Mode::Uploaded;
                self.anim_idx = 0;
            },
            _ => {},
        }
    }

    /// Plans one round of the display loop. In procedural mode the frame of
    /// the current tick is to be shown and the tick advances; in live mode
    /// the picture stays; in uploaded mode the next frame of the custom
    /// animation is shown (cycling through its frames) and the delay follows
    /// its rate, or, when it has no frame, the loop falls back to the
    /// procedural animation.
    pub fn next_tick(&mut self, matrix: &mut LedMatrix, storage: &DeviceStorage) -> (plan: TickPlan)
        requires
            old(self).mode == Mode::Procedural ==> old(self).tick < u32::MAX,
            old(self).mode == Mode::Uploaded && storage.custom_animation.frame_count > 0 ==> {
                &&& old(self).anim_idx % storage.custom_animation.frame_count < MAX_ANIMATION_FRAMES
                &&& storage.custom_animation.fps > 0
                &&& old(self).anim_idx < usize::MAX
            },
        ensures
            match old(self).mode {
                Mode::Procedural => {
                    &&& plan == TickPlan {
                        plasma_tick: Some(old(self).tick),
                        delay_ms: PROCEDURAL_DELAY_MS,
                    }
                    &&& final(self).mode == Mode::Procedural
                    &&& final(self).tick == old(self).tick + 1
                    &&& final(self).anim_idx == old(self).anim_idx
                    &&& final(matrix)@ == old(matrix)@
                },
                Mode::Live => {
                    &&& plan == TickPlan { plasma_tick: None, delay_ms: PROCEDURAL_DELAY_MS }
                    &&& final(self).mode == Mode::Live
                    &&& final(self).tick == old(self).tick
                    &&& final(self).anim_idx == old(self).anim_idx
                    &&& final(matrix)@ == old(matrix)@
                },
                Mode::Uploaded => {
                    let anim = storage.custom_animation@;
                    &&& final(self).tick == old(self).tick
                    &&& if anim.frame_count > 0 {
                        &&& plan == TickPlan {
                            plasma_tick: None,
                            delay_ms: (1000int / (anim.fps as int)) as u64,
                        }
                        &&& final(self).mode == Mode::Uploaded
                        &&& final(self).anim_idx == old(self).anim_idx + 1
                        &&& final(matrix)@.pixels == spec_chain_order(
                            anim.frames[old(self).anim_idx as int % anim.frame_count],
                        )
                        &&& final(matrix)@.should_refresh
                    } else {
                        &&& plan == TickPlan { plasma_tick: None, delay_ms: PROCEDURAL_DELAY_MS }
                        &&& final(self).mode == Mode::Procedural
                        &&& final(self).anim_idx == old(self).anim_idx
                        &&& final(matrix)@ == old(matrix)@
                    }
                },
            },
    {
        match self.mode {
            Mode::Procedural => {
                let t = self.tick;
                self.tick = t + 1;
                TickPlan { plasma_tick: Some(t), delay_ms: PROCEDURAL_DELAY_MS }
            },
            Mode::Live => TickPlan { plasma_tick: None, delay_ms: PROCEDURAL_DELAY_MS },
            Mode::Uploaded => {
                let count = storage.custom_animation.frame_count;
                if count > 0 {
                    let i = self.anim_idx % count;
                    matrix.set_frame(&storage.custom_animation.frames[i]);
                    self.anim_idx = self.anim_idx + 1;
                    TickPlan { plasma_tick: None, delay_ms: 1000 / storage.custom_animation.fps as u64 }
                } else {
                    self.mode = Mode::Procedural;
                    TickPlan { plasma_tick: None, delay_ms: PROCEDURAL_DELAY_MS }
                }
            },
        }
    }
}

} // verus!
