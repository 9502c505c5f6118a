use vstd::prelude::*;

use crate::color::{black, gamma_correct, spec_gamma, Frame, GAMMA8, RGB8};
use crate::geometry::{
    lemma_chain_order_at, lemma_xy_to_index_in_range, spec_chain_order, spec_xy_to_index, to_chain_order, xy_to_index,
    MATRIX_HEIGHT, MATRIX_PIXEL_COUNT, MATRIX_WIDTH,
};

verus! {

/// The picture held for the LED matrix: the colour of every LED, in chain
/// order, and whether it has changed since it was last sent to the LEDs.
/// A WS2812 keeps showing the last colours it was sent, so an unchanged
/// picture need not be sent again.
pub struct LedMatrix {
    pixels: Frame,
    should_refresh: bool,
}

/// A matrix picture as plain values.
pub struct MatrixView {
    pub pixels: Seq<RGB8>,
    pub should_refresh: bool,
}

impl View for LedMatrix {
    type V = MatrixView;

    closed spec fn view(&self) -> MatrixView {
        MatrixView { pixels: self.pixels@, should_refresh: self.should_refresh }
    }
}

/// Every LED has the same colour.
pub open spec fn spec_all(color: RGB8) -> Seq<RGB8> {
    Seq::new(MATRIX_PIXEL_COUNT as nat, |i: int| color)
}

/// The picture after `show`, and the colours that `show` sends: the
/// gamma-corrected picture when it has changed since it was last sent,
/// nothing otherwise.
pub open spec fn spec_show(m: MatrixView) -> (MatrixView, Option<Seq<RGB8>>) {
    if m.should_refresh {
        (
            MatrixView { pixels: m.pixels, should_refresh: false },
            Some(m.pixels.map_values(|p: RGB8| spec_gamma(p))),
        )
    } else {
        (m, None)
    }
}

/// A picture is sent once: right after `show`, another `show` sends nothing
/// and changes nothing, until the picture is changed or a refresh requested.
pub proof fn lemma_show_sends_once(m: MatrixView)
    ensures
        spec_show(spec_show(m).0).1 is None,
        spec_show(spec_show(m).0).0 == spec_show(m).0,
{
}

/// `show` sends exactly when the picture has changed, and then sends each
/// LED's own colour, gamma-corrected through `GAMMA8`, at that LED's chain
/// position: the picture is not reordered on its way to the LEDs.
pub proof fn lemma_show_sends_picture_in_place(m: MatrixView)
    ensures
        spec_show(m).1 is Some <==> m.should_refresh,
        spec_show(m).0.pixels == m.pixels,
        spec_show(m).1 matches Some(out) ==> out.len() == m.pixels.len() && forall|i: int|
            0 <= i < m.pixels.len() ==> #[trigger] out[i] == (RGB8 {
                r: GAMMA8@[m.pixels[i].r as int],
                g: GAMMA8@[m.pixels[i].g as int],
                b: GAMMA8@[m.pixels[i].b as int],
            }),
{
}

/// A colour set at column `x`, row `y` is sent, gamma-corrected, at the chain
/// position `xy_to_index(x, y)` and nowhere else; every other LED is sent its
/// own colour.
pub proof fn lemma_set_then_show(m: MatrixView, x: int, y: int, c: RGB8)
    requires
        0 <= x < MATRIX_WIDTH,
        0 <= y < MATRIX_HEIGHT,
        m.pixels.len() == MATRIX_PIXEL_COUNT,
    ensures
        ({
            let i = spec_xy_to_index(x, y);
            let after = MatrixView { pixels: m.pixels.update(i, c), should_refresh: true };
            &&& spec_show(after).1 matches Some(out) && out[i] == (RGB8 {
                r: GAMMA8@[c.r as int],
                g: GAMMA8@[c.g as int],
                b: GAMMA8@[c.b as int],
            }) && forall|j: int|
                0 <= j < MATRIX_PIXEL_COUNT && j != i ==> #[trigger] out[j] == (RGB8 {
                    r: GAMMA8@[m.pixels[j].r as int],
                    g: GAMMA8@[m.pixels[j].g as int],
                    b: GAMMA8@[m.pixels[j].b as int],
                })
        }),
{
    lemma_xy_to_index_in_range(x, y);
    let i = spec_xy_to_index(x, y);
    let after = MatrixView { pixels: m.pixels.update(i, c), should_refresh: true };
    lemma_show_sends_picture_in_place(after);
}

impl LedMatrix {
    /// A dark picture, to be sent to the LEDs.
    pub fn new() -> (m: Self)
        ensures
            m@.pixels == spec_all(black()),
            m@.should_refresh,
    {
        let m = LedMatrix {
            pixels: [RGB8 { r: 0, g: 0, b: 0 }; MATRIX_PIXEL_COUNT],
            should_refresh: true,
        };
        assert(m@.pixels =~= spec_all(black()));
        m
    }

    /// The picture holds one colour per LED.
    pub proof fn lemma_pixel_count(&self)
        ensures
            self@.pixels.len() == MATRIX_PIXEL_COUNT,
    {
    }

    /// The colours of the LEDs in chain order.
    pub fn pixels(&self) -> (p: &Frame)
        ensures
            p@ == self@.pixels,
    {
        &self.pixels
    }

    /// Whether the picture has changed since it was last sent.
    pub fn should_refresh(&self) -> (b: bool)
        ensures
            b == self@.should_refresh,
    {
        self.should_refresh
    }

    /// Switches every LED off.
    pub fn clear(&mut self)
        ensures
            final(self)@.pixels == spec_all(black()),
            final(self)@.should_refresh,
    {
        self.pixels = [RGB8 { r: 0, g: 0, b: 0 }; MATRIX_PIXEL_COUNT];
        self.should_refresh = true;
        assert(self@.pixels =~= spec_all(black()));
    }

    /// Sets the LED at column `x`, row `y`.
    pub fn set(&mut self, x: usize, y: usize, color: RGB8)
        requires
            y % 2 == 1 ==> x < MATRIX_WIDTH,
            0 <= spec_xy_to_index(x as int, y as int) < MATRIX_PIXEL_COUNT,
        ensures
            final(self)@.pixels == old(self)@.pixels.update(
                spec_xy_to_index(x as int, y as int),
                color,
            ),
            final(self)@.should_refresh,
    {
        let i = xy_to_index(x, y);
        self.pixels[i] = color;
        self.should_refresh = true;
        assert(self@.pixels =~= old(self)@.pixels.update(i as int, color));
    }

    /// Gives every LED the same colour.
    pub fn set_color(&mut self, color: RGB8)
        ensures
            final(self)@.pixels == spec_all(color),
            final(self)@.should_refresh,
    {
        self.pixels = [color; MATRIX_PIXEL_COUNT];
        self.should_refresh = true;
        assert(self@.pixels =~= spec_all(color));
    }

    /// Sets the colours of all LEDs, given in chain order.
    pub fn set_pixels(&mut self, pixels: Frame)
        ensures
            final(self)@.pixels == pixels@,
            final(self)@.should_refresh,
    {
        self.pixels = pixels;
        self.should_refresh = true;
    }

    /// Shows a frame given in row-major order: the LED at column `x`, row `y`
    /// gets `frame[y * MATRIX_WIDTH + x]`.
    pub fn set_frame(&mut self, frame: &Frame)
        ensures
            final(self)@.pixels == spec_chain_order(frame@),
            forall|x: int, y: int|
                0 <= x < MATRIX_WIDTH && 0 <= y < MATRIX_HEIGHT
                    ==> #[trigger] final(self)@.pixels[spec_xy_to_index(x, y)]
                    == frame@[y * MATRIX_WIDTH + x],
            final(self)@.should_refresh,
    {
        self.pixels = to_chain_order(frame);
        self.should_refresh = true;
        assert forall|x: int, y: int|
            0 <= x < MATRIX_WIDTH && 0 <= y < MATRIX_HEIGHT implies #[trigger] self@.pixels[spec_xy_to_index(
            x,
            y,
        )] == frame@[y * MATRIX_WIDTH + x] by {
            lemma_chain_order_at(frame@, x, y);
        }
    }

    /// Marks the picture as changed, so that the next `show` sends it.
    pub fn request_refresh(&mut self)
        ensures
            final(self)@.pixels == old(self)@.pixels,
            final(self)@.should_refresh,
    {
        self.should_refresh = true;
    }

    /// The gamma-corrected colours to send to the LEDs, in chain order, when
    /// the picture has changed since it was last sent; `None` when it has
    /// not. Afterwards the picture counts as sent.
    pub fn show(&mut self) -> (out: Option<Frame>)
        ensures
            final(self)@ == spec_show(old(self)@).0,
            match out {
                Some(frame) => spec_show(old(self)@).1 == Some(frame@),
                None => spec_show(old(self)@).1 is None,
            },
            out is Some <==> old(self)@.should_refresh,
            out matches Some(frame) ==> forall|i: int|
                0 <= i < MATRIX_PIXEL_COUNT ==> #[trigger] frame@[i] == (RGB8 {
                    r: GAMMA8@[old(self)@.pixels[i].r as int],
                    g: GAMMA8@[old(self)@.pixels[i].g as int],
                    b: GAMMA8@[old(self)@.pixels[i].b as int],
                }),
    {
        if !self.should_refresh {
            assert(self@ == old(self)@);
            return None;
        }
        let mut corrected = self.pixels;
        gamma_correct(&mut corrected);
        self.should_refresh = false;
        assert(corrected@ =~= old(self)@.pixels.map_values(|p: RGB8| spec_gamma(p)));
        Some(corrected)
    }
}

} // verus!
