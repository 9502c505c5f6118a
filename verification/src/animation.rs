use vstd::prelude::*;

use crate::color::{black, hsv2rgb, lemma_hsv2rgb_within_value, spec_hsv2rgb, Frame, RGB8};
use crate::geometry::{
    lemma_xy_to_index_surjective, spec_chain_order, spec_index_to_x, spec_index_to_y,
    to_chain_order, MATRIX_PIXEL_COUNT, MATRIX_WIDTH,
};
use crate::protocol::MAX_ANIMATION_FRAMES;

verus! {

/// An animation uploaded from the studio app: room for `MAX_ANIMATION_FRAMES`
/// frames, of which the first `frame_count` are played at `fps` frames per
/// second.
pub struct StoredAnimation {
    pub frames: [Frame; MAX_ANIMATION_FRAMES],
    pub frame_count: usize,
    pub fps: u8,
}

/// A stored animation as sequences of colours.
pub struct AnimationView {
    pub frames: Seq<Seq<RGB8>>,
    pub frame_count: int,
    pub fps: u8,
}

impl View for StoredAnimation {
    type V = AnimationView;

    open spec fn view(&self) -> AnimationView {
        AnimationView {
            frames: self.frames@.map_values(|f: Frame| f@),
            frame_count: self.frame_count as int,
            fps: self.fps,
        }
    }
}

/// The frame in which every LED is off.
pub open spec fn spec_black_frame() -> Seq<RGB8> {
    Seq::new(MATRIX_PIXEL_COUNT as nat, |i: int| black())
}

impl StoredAnimation {
    /// An empty animation: every frame black, no frame to play, 30 fps.
    pub fn new() -> (anim: Self)
        ensures
            anim@.frames.len() == MAX_ANIMATION_FRAMES,
            forall|i: int| 0 <= i < MAX_ANIMATION_FRAMES ==> #[trigger] anim@.frames[i] == spec_black_frame(),
            anim.frame_count == 0,
            anim.fps == 30,
    {
        let frame = [RGB8 { r: 0, g: 0, b: 0 }; MATRIX_PIXEL_COUNT];
        assert(frame@ =~= spec_black_frame());
        let anim = StoredAnimation {
            frames: [frame; MAX_ANIMATION_FRAMES],
            frame_count: 0,
            fps: 30,
        };
        anim
    }
}

/// Saturation of the colours of the plasma animation.
pub const PLASMA_SATURATION: u8 = 255;

/// Value (brightness) of the colours of the plasma animation.
pub const PLASMA_VALUE: u8 = 25;

/// The colour in which the plasma animation shows a hue.
pub open spec fn spec_plasma_color(hue: u8) -> RGB8 {
    let c = spec_hsv2rgb(hue, PLASMA_SATURATION, PLASMA_VALUE);
    RGB8 { r: c.0, g: c.1, b: c.2 }
}

/// The procedural "rotating plasma" animation. The hue of each LED at each
/// tick comes from a sum of sines; this type turns those hues into a frame.
pub struct RotatingPlasmaAnimation;

impl RotatingPlasmaAnimation {
    /// The frame, in chain order, in which the LED at column `x`, row `y`
    /// shows the hue `hues[y * MATRIX_WIDTH + x]` at full saturation and
    /// value `PLASMA_VALUE`.
    pub fn frame_from_hues(&self, hues: &[u8; MATRIX_PIXEL_COUNT]) -> (frame: Frame)
        ensures
            frame@ == spec_chain_order(hues@.map_values(|h: u8| spec_plasma_color(h))),
            forall|i: int|
                0 <= i < MATRIX_PIXEL_COUNT ==> #[trigger] frame@[i].r <= PLASMA_VALUE
                    && frame@[i].g <= PLASMA_VALUE && frame@[i].b <= PLASMA_VALUE,
    {
        let mut colors = [RGB8 { r: 0, g: 0, b: 0 }; MATRIX_PIXEL_COUNT];
        for i in 0..MATRIX_PIXEL_COUNT
            invariant
                colors@.len() == MATRIX_PIXEL_COUNT,
                forall|j: int| 0 <= j < i ==> #[trigger] colors@[j] == spec_plasma_color(hues@[j]),
        {
            colors[i] = hsv2rgb(hues[i], PLASMA_SATURATION, PLASMA_VALUE);
        }
        assert(colors@ =~= hues@.map_values(|h: u8| spec_plasma_color(h)));
        let frame = to_chain_order(&colors);
        assert forall|i: int| 0 <= i < MATRIX_PIXEL_COUNT implies #[trigger] frame@[i].r
            <= PLASMA_VALUE && frame@[i].g <= PLASMA_VALUE && frame@[i].b <= PLASMA_VALUE by {
            lemma_xy_to_index_surjective(i);
            let j = spec_index_to_y(i) * MATRIX_WIDTH + spec_index_to_x(i);
            assert(0 <= j < MATRIX_PIXEL_COUNT);
            lemma_hsv2rgb_within_value(hues@[j], PLASMA_SATURATION, PLASMA_VALUE);
        }
        frame
    }
}

/// Something that produces a frame for every tick.
pub trait Animation {
    /// Whether the animation has a frame to give.
    spec fn can_advance(&self) -> bool;

    /// The frame to show at `tick`.
    fn next_frame(&mut self, tick: u32) -> Frame
        requires
            old(self).can_advance(),
    ;
}

/// An animation made of frames fixed at compile time, played in a loop.
pub struct StaticAnimation {
    frames: &'static [Frame],
}

impl StaticAnimation {
    /// The animation that plays `frames` in a loop.
    pub fn new(frames: &'static [Frame]) -> (anim: Self)
        ensures
            anim.frames() == frames@,
    {
        StaticAnimation { frames }
    }

    /// The frames of the loop.
    pub closed spec fn frames(&self) -> Seq<Frame> {
        self.frames@
    }
}

impl Animation for StaticAnimation {
    open spec fn can_advance(&self) -> bool {
        self.frames().len() > 0
    }

    /// The frame at position `tick` of the loop, counted modulo its length.
    fn next_frame(&mut self, tick: u32) -> (frame: Frame)
        ensures
            final(self).frames() == old(self).frames(),
            frame == old(self).frames()[tick as int % old(self).frames().len() as int],
    {
        self.frames[(tick as usize) % self.frames.len()]
    }
}

} // verus!
