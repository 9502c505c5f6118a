use vstd::prelude::*;

use crate::geometry::MATRIX_PIXEL_COUNT;
use crate::protocol::MAX_CURRENT_MA;

verus! {

/// One LED colour, 8 bits per channel (the same channels as `smart_leds::RGB8`).
#[derive(Clone, Copy, Debug, Default, PartialEq, Eq, Structural)]
pub struct RGB8 {
    pub r: u8,
    pub g: u8,
    pub b: u8,
}

/// The colours of every LED of the matrix, in row-major order unless a
/// function says that it is in chain order.
pub type Frame = [RGB8; MATRIX_PIXEL_COUNT];

/// The LED that is switched off.
pub open spec fn black() -> RGB8 {
    RGB8 { r: 0, g: 0, b: 0 }
}

/// Gamma table: maps a linear channel value to the value that the WS2812
/// must be given for the eye to perceive it as linear.
pub const GAMMA8: [u8; 256] = [
    0,   0,   0,   0,   0,   0,   0,   0,   0,   0,   0,   0,   0,   0,   0,   0,
    0,   0,   0,   0,   0,   0,   0,   0,   0,   0,   0,   0,   0,   0,   0,   0,
    0,   0,   0,   0,   0,   1,   1,   1,   1,   1,   1,   1,   1,   1,   1,   1,
    1,   1,   1,   1,   2,   2,   2,   2,   2,   2,   2,   2,   2,   3,   3,   3,
    3,   3,   3,   4,   4,   4,   4,   4,   4,   5,   5,   5,   5,   6,   6,   6,
    6,   6,   7,   7,   7,   8,   8,   8,   8,   9,   9,   9,  10,  10,  10,  11,
    11,  12,  12,  12,  13,  13,  14,  14,  14,  15,  15,  16,  16,  17,  17,  18,
    18,  19,  19,  20,  21,  21,  22,  22,  23,  23,  24,  25,  25,  26,  27,  27,
    28,  29,  30,  30,  31,  32,  33,  33,  34,  35,  36,  37,  37,  38,  39,  40,
    41,  42,  43,  44,  45,  46,  47,  48,  49,  50,  51,  52,  53,  54,  55,  56,
    57,  59,  60,  61,  62,  63,  65,  66,  67,  68,  70,  71,  72,  74,  75,  76,
    78,  79,  81,  82,  84,  85,  87,  88,  90,  91,  93,  95,  96,  98,  99, 101,
    103, 105, 106, 108, 110, 112, 113, 115, 117, 119, 121, 123, 125, 127, 129, 131,
    133, 135, 137, 139, 141, 143, 146, 148, 150, 152, 154, 157, 159, 161, 164, 166,
    168, 171, 173, 176, 178, 181, 183, 186, 188, 191, 194, 196, 199, 202, 204, 207,
    210, 213, 216, 219, 221, 224, 227, 230, 233, 236, 239, 242, 246, 249, 252, 255
];

/// Gamma correction of one colour, channel by channel.
pub open spec fn spec_gamma(p: RGB8) -> RGB8 {
    RGB8 { r: GAMMA8@[p.r as int], g: GAMMA8@[p.g as int], b: GAMMA8@[p.b as int] }
}

/// The gamma table never raises a value, keeps 0 and 255, and between any
/// two neighbouring entries it does not decrease.
proof fn lemma_gamma_table_steps()
    ensures
        GAMMA8@[0] == 0,
        GAMMA8@[255] == 255,
        forall|i: int| 0 <= i < 256 ==> #[trigger] GAMMA8@[i] <= i,
        forall|i: int| 0 <= i < 255 ==> #[trigger] GAMMA8@[i] <= GAMMA8@[i + 1],
{
}

/// The gamma table is non-decreasing.
pub proof fn lemma_gamma_table_monotone(a: u8, b: u8)
    requires
        a <= b,
    ensures
        GAMMA8@[a as int] <= GAMMA8@[b as int],
    decreases b - a,
{
    lemma_gamma_table_steps();
    if a < b {
        lemma_gamma_table_monotone(a, (b - 1) as u8);
        assert(GAMMA8@[b - 1] <= GAMMA8@[b as int]);
    }
}

/// Gamma correction never makes a channel brighter; it keeps an unlit
/// channel unlit and a fully lit channel fully lit.
pub proof fn lemma_gamma_never_brightens(p: RGB8)
    ensures
        spec_gamma(p).r <= p.r,
        spec_gamma(p).g <= p.g,
        spec_gamma(p).b <= p.b,
        p.r == 0 ==> spec_gamma(p).r == 0,
        p.r == 255 ==> spec_gamma(p).r == 255,
        p.g == 0 ==> spec_gamma(p).g == 0,
        p.g == 255 ==> spec_gamma(p).g == 255,
        p.b == 0 ==> spec_gamma(p).b == 0,
        p.b == 255 ==> spec_gamma(p).b == 255,
{
    lemma_gamma_table_steps();
    assert(GAMMA8@[p.r as int] <= p.r);
    assert(GAMMA8@[p.g as int] <= p.g);
    assert(GAMMA8@[p.b as int] <= p.b);
}

/// One colour is no brighter than another in any channel.
pub open spec fn spec_no_brighter(p: RGB8, q: RGB8) -> bool {
    p.r <= q.r && p.g <= q.g && p.b <= q.b
}

/// Gamma correction keeps the order of channel values: two pictures of
/// which the first is nowhere brighter than the second stay so after
/// correction.
pub proof fn lemma_gamma_keeps_order(p: Seq<RGB8>, q: Seq<RGB8>)
    requires
        p.len() == q.len(),
        forall|i: int| 0 <= i < p.len() ==> spec_no_brighter(#[trigger] p[i], q[i]),
    ensures
        forall|i: int|
            0 <= i < p.len() ==> spec_no_brighter(spec_gamma(#[trigger] p[i]), spec_gamma(q[i])),
{
    assert forall|i: int| 0 <= i < p.len() implies spec_no_brighter(
        spec_gamma(#[trigger] p[i]),
        spec_gamma(q[i]),
    ) by {
        assert(spec_no_brighter(p[i], q[i]));
        lemma_gamma_table_monotone(p[i].r, q[i].r);
        lemma_gamma_table_monotone(p[i].g, q[i].g);
        lemma_gamma_table_monotone(p[i].b, q[i].b);
    }
}

/// Replaces every colour by its gamma-corrected colour.
pub fn gamma_correct(pixels: &mut [RGB8])
    ensures
        final(pixels)@.len() == old(pixels)@.len(),
        forall|i: int|
            0 <= i < old(pixels)@.len() ==> #[trigger] final(pixels)@[i] == spec_gamma(
                old(pixels)@[i],
            ),
{
    let n = pixels.len();
    for i in 0..n
        invariant
            n == old(pixels)@.len(),
            pixels@.len() == n,
            forall|j: int| 0 <= j < i ==> #[trigger] pixels@[j] == spec_gamma(old(pixels)@[j]),
            forall|j: int| i <= j < n ==> #[trigger] pixels@[j] == old(pixels)@[j],
    {
        let p = pixels[i];
        pixels[i] = RGB8 {
            r: GAMMA8[p.r as usize],
            g: GAMMA8[p.g as usize],
            b: GAMMA8[p.b as usize],
        };
    }
}

/// Sum of all channel values of all colours.
pub open spec fn spec_channel_sum(pixels: Seq<RGB8>) -> int
    decreases pixels.len(),
{
    if pixels.len() == 0 {
        0
    } else {
        let p = pixels.last();
        spec_channel_sum(pixels.drop_last()) + p.r + p.g + p.b
    }
}

/// A prefix of a picture has no larger channel sum than the picture.
proof fn lemma_channel_sum_prefix(pixels: Seq<RGB8>, i: int)
    requires
        0 <= i <= pixels.len(),
    ensures
        spec_channel_sum(pixels.take(i)) <= spec_channel_sum(pixels),
    decreases pixels.len(),
{
    if i < pixels.len() {
        lemma_channel_sum_prefix(pixels.drop_last(), i);
        assert(pixels.drop_last().take(i) =~= pixels.take(i));
    } else {
        assert(pixels.take(i) =~= pixels);
    }
}

/// Sum of the red, green and blue values of all pixels: the quantity from
/// which the current that the LEDs draw is estimated (20 mA per fully lit
/// channel, that is `sum * 20 / 255` mA, plus 1 mA of idle draw per LED).
pub fn channel_sum(pixels: &[RGB8]) -> (total: u32)
    requires
        spec_channel_sum(pixels@) <= u32::MAX,
    ensures
        total == spec_channel_sum(pixels@),
{
    let n = pixels.len();
    let mut total: u32 = 0;
    for i in 0..n
        invariant
            n == pixels@.len(),
            spec_channel_sum(pixels@) <= u32::MAX,
            total == spec_channel_sum(pixels@.take(i as int)),
    {
        let p = pixels[i];
        assert(pixels@.take(i + 1).drop_last() =~= pixels@.take(i as int));
        proof {
            lemma_channel_sum_prefix(pixels@, i + 1);
        }
        total = total + p.r as u32 + p.g as u32 + p.b as u32;
    }
    assert(pixels@.take(n as int) =~= pixels@);
    total
}

/// No colour contributes more than three full channels to the sum.
pub proof fn lemma_channel_sum_bound(pixels: Seq<RGB8>)
    ensures
        0 <= spec_channel_sum(pixels) <= 765 * pixels.len(),
    decreases pixels.len(),
{
    if pixels.len() > 0 {
        lemma_channel_sum_bound(pixels.drop_last());
    }
}

/// Whether the estimated draw of a frame, `sum * 20 / 255` mA for its
/// channel sum plus 1 mA per LED, is above `MAX_CURRENT_MA`; stated without
/// division, multiplied through by 255.
pub open spec fn spec_exceeds_current_limit(pixels: Seq<RGB8>) -> bool {
    20 * spec_channel_sum(pixels) + 255 * pixels.len() > 255 * MAX_CURRENT_MA
}

/// Whether showing `pixels` would draw more than `MAX_CURRENT_MA` by the
/// estimate of 20 mA per fully lit channel plus 1 mA of idle draw per LED
/// (such a frame is not to be sent, so as not to overload the supply).
pub fn exceeds_current_limit(pixels: &Frame) -> (over: bool)
    ensures
        over == spec_exceeds_current_limit(pixels@),
        over == (spec_channel_sum(pixels@) > 15861),
{
    proof {
        lemma_channel_sum_bound(pixels@);
    }
    let sum = channel_sum(pixels) as u64;
    20 * sum + 255 * (MATRIX_PIXEL_COUNT as u64) > 255 * (MAX_CURRENT_MA as u64)
}

/// The channel sum of two pictures side by side is the sum of their channel
/// sums.
pub proof fn lemma_channel_sum_append(a: Seq<RGB8>, b: Seq<RGB8>)
    ensures
        spec_channel_sum(a + b) == spec_channel_sum(a) + spec_channel_sum(b),
    decreases b.len(),
{
    if b.len() > 0 {
        lemma_channel_sum_append(a, b.drop_last());
        assert((a + b).drop_last() =~= a + b.drop_last());
        assert((a + b).last() == b.last());
    } else {
        assert(a + b =~= a);
    }
}

/// A picture that is nowhere brighter than another has no larger channel sum.
pub proof fn lemma_channel_sum_monotone(p: Seq<RGB8>, q: Seq<RGB8>)
    requires
        p.len() == q.len(),
        forall|i: int| 0 <= i < p.len() ==> spec_no_brighter(#[trigger] p[i], q[i]),
    ensures
        spec_channel_sum(p) <= spec_channel_sum(q),
    decreases p.len(),
{
    if p.len() > 0 {
        let pi = p.drop_last();
        let qi = q.drop_last();
        assert forall|i: int| 0 <= i < pi.len() implies spec_no_brighter(#[trigger] pi[i], qi[i]) by {
            assert(pi[i] == p[i] && qi[i] == q[i]);
        }
        lemma_channel_sum_monotone(pi, qi);
        assert(spec_no_brighter(p[p.len() - 1], q[q.len() - 1]));
    }
}

/// For a full frame the limit is crossed exactly when the channel sum is
/// above 15861: 256 mA of idle draw plus `15861 * 20 / 255` = 1244 mA make
/// exactly `MAX_CURRENT_MA`.
pub proof fn lemma_current_limit_threshold(pixels: Seq<RGB8>)
    requires
        pixels.len() == MATRIX_PIXEL_COUNT,
    ensures
        spec_exceeds_current_limit(pixels) <==> spec_channel_sum(pixels) > 15861,
{
}

/// The limit check is monotone: a frame at least as bright as one that is
/// over the limit, channel by channel, is over the limit too; and one that
/// is nowhere brighter than a frame within the limit is within it.
pub proof fn lemma_current_limit_monotone(p: Seq<RGB8>, q: Seq<RGB8>)
    requires
        p.len() == MATRIX_PIXEL_COUNT,
        q.len() == MATRIX_PIXEL_COUNT,
        forall|i: int| 0 <= i < p.len() ==> spec_no_brighter(#[trigger] p[i], q[i]),
    ensures
        spec_exceeds_current_limit(p) ==> spec_exceeds_current_limit(q),
        !spec_exceeds_current_limit(q) ==> !spec_exceeds_current_limit(p),
{
    lemma_channel_sum_monotone(p, q);
}

/// The colour that `smart_leds::hsv::hsv2rgb` gives a hue, saturation and
/// value, as (red, green, blue). The hue circle is cut into six sectors of
/// about 43 steps; in each, one channel is at `val`, one at the floor `p`
/// set by the saturation, and one ramps between them (`q` falling, `t`
/// rising) with the position `f` of the hue inside its sector.
pub open spec fn spec_hsv2rgb(hue: u8, sat: u8, val: u8) -> (u8, u8, u8) {
    let v = val as int;
    let s = sat as int;
    let f = (hue as int * 2 % 85) * 3;
    let p = v * (255 - s) / 255;
    let q = v * (255 - (s * f) / 255) / 255;
    let t = v * (255 - (s * (255 - f)) / 255) / 255;
    if hue <= 42 {
        (v as u8, t as u8, p as u8)
    } else if hue <= 84 {
        (q as u8, v as u8, p as u8)
    } else if hue <= 127 {
        (p as u8, v as u8, t as u8)
    } else if hue <= 169 {
        (p as u8, q as u8, v as u8)
    } else if hue <= 212 {
        (t as u8, p as u8, v as u8)
    } else if hue <= 254 {
        (v as u8, p as u8, q as u8)
    } else {
        (v as u8, t as u8, p as u8)
    }
}

/// `v * (255 - x) / 255` lies between 0 and `v` for `x` between 0 and 255.
proof fn lemma_scaled_within(v: int, x: int)
    requires
        0 <= v <= 255,
        0 <= x <= 255,
    ensures
        0 <= v * (255 - x) / 255 <= v,
{
    assert(0 <= v * (255 - x) <= v * 255) by (nonlinear_arith)
        requires
            0 <= v <= 255,
            0 <= x <= 255,
    ;
    assert(v * (255 - x) / 255 <= v * 255 / 255) by (nonlinear_arith)
        requires
            0 <= v * (255 - x) <= v * 255,
    ;
}

/// No channel of an HSV colour exceeds its value.
pub proof fn lemma_hsv2rgb_within_value(hue: u8, sat: u8, val: u8)
    ensures
        spec_hsv2rgb(hue, sat, val).0 <= val,
        spec_hsv2rgb(hue, sat, val).1 <= val,
        spec_hsv2rgb(hue, sat, val).2 <= val,
{
    let v = val as int;
    let s = sat as int;
    let f = (hue as int * 2 % 85) * 3;
    assert(0 <= f <= 252);
    assert(0 <= s * f <= 255 * 252) by (nonlinear_arith)
        requires
            0 <= s <= 255,
            0 <= f <= 252,
    ;
    assert(0 <= s * (255 - f) <= 255 * 255) by (nonlinear_arith)
        requires
            0 <= s <= 255,
            0 <= f <= 252,
    ;
    lemma_scaled_within(v, s);
    lemma_scaled_within(v, (s * f) / 255);
    lemma_scaled_within(v, (s * (255 - f)) / 255);
}

/// The colour of the given hue, saturation and value.
///
/// Calls `smart_leds::hsv::hsv2rgb`, whose integer formula `spec_hsv2rgb`
/// restates.
#[verifier::external_body]
pub(crate) fn hsv2rgb(hue: u8, sat: u8, val: u8) -> (rgb: RGB8)
    ensures
        (rgb.r, rgb.g, rgb.b) == spec_hsv2rgb(hue, sat, val),
{
    let c = smart_leds::hsv::hsv2rgb(smart_leds::hsv::Hsv { hue, sat, val });
    RGB8 { r: c.r, g: c.g, b: c.b }
}

} // verus!
