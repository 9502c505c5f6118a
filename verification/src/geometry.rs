use vstd::prelude::*;

use crate::color::{Frame, RGB8};

verus! {

/// Number of LED columns.
pub const MATRIX_WIDTH: usize = 16;

/// Number of LED rows.
pub const MATRIX_HEIGHT: usize = 16;

/// Number of LEDs on the matrix.
pub const MATRIX_PIXEL_COUNT: usize = MATRIX_WIDTH * MATRIX_HEIGHT;

/// Position in the LED chain of the LED at column `x`, row `y`: the strip runs
/// left to right on even rows and right to left on odd rows.
pub open spec fn spec_xy_to_index(x: int, y: int) -> int {
    if y % 2 == 0 {
        y * MATRIX_WIDTH + x
    } else {
        y * MATRIX_WIDTH + (MATRIX_WIDTH - 1 - x)
    }
}

/// Maps coordinates (x, y) to the linear index of the pixel buffer. The matrix
/// is wired in a zig-zag pattern, so even rows run left-to-right and odd rows
/// right-to-left.
pub fn xy_to_index(x: usize, y: usize) -> (index: usize)
    requires
        y % 2 == 1 ==> x < MATRIX_WIDTH,
        spec_xy_to_index(x as int, y as int) <= usize::MAX,
    ensures
        index == spec_xy_to_index(x as int, y as int),
{
    if y % 2 == 0 {
        y * MATRIX_WIDTH + x
    } else {
        y * MATRIX_WIDTH + (MATRIX_WIDTH - 1 - x)
    }
}

/// Every LED on the grid has a position in the chain, and that position lies
/// inside the pixel buffer.
pub proof fn lemma_xy_to_index_in_range(x: int, y: int)
    requires
        0 <= x < MATRIX_WIDTH,
        0 <= y < MATRIX_HEIGHT,
    ensures
        0 <= spec_xy_to_index(x, y) < MATRIX_PIXEL_COUNT,
        spec_xy_to_index(x, y) / (MATRIX_WIDTH as int) == y,
{
}

/// Two different LEDs on the grid never share a position in the chain.
pub proof fn lemma_xy_to_index_injective(x1: int, y1: int, x2: int, y2: int)
    requires
        0 <= x1 < MATRIX_WIDTH,
        0 <= y1 < MATRIX_HEIGHT,
        0 <= x2 < MATRIX_WIDTH,
        0 <= y2 < MATRIX_HEIGHT,
        spec_xy_to_index(x1, y1) == spec_xy_to_index(x2, y2),
    ensures
        x1 == x2,
        y1 == y2,
{
    lemma_xy_to_index_in_range(x1, y1);
    lemma_xy_to_index_in_range(x2, y2);
}

/// Column of the LED at chain position `i`.
pub open spec fn spec_index_to_x(i: int) -> int {
    let y = i / (MATRIX_WIDTH as int);
    if y % 2 == 0 {
        i % (MATRIX_WIDTH as int)
    } else {
        MATRIX_WIDTH - 1 - i % (MATRIX_WIDTH as int)
    }
}

/// Row of the LED at chain position `i`.
pub open spec fn spec_index_to_y(i: int) -> int {
    i / (MATRIX_WIDTH as int)
}

/// Every position of the chain belongs to exactly one LED of the grid: the
/// zig-zag wiring is a bijection between the grid and the pixel buffer.
pub proof fn lemma_xy_to_index_surjective(i: int)
    requires
        0 <= i < MATRIX_PIXEL_COUNT,
    ensures
        0 <= spec_index_to_x(i) < MATRIX_WIDTH,
        0 <= spec_index_to_y(i) < MATRIX_HEIGHT,
        spec_xy_to_index(spec_index_to_x(i), spec_index_to_y(i)) == i,
{
}

/// Chain position and grid position are inverse to each other.
pub proof fn lemma_index_to_xy(x: int, y: int)
    requires
        0 <= x < MATRIX_WIDTH,
        0 <= y < MATRIX_HEIGHT,
    ensures
        spec_index_to_x(spec_xy_to_index(x, y)) == x,
        spec_index_to_y(spec_xy_to_index(x, y)) == y,
{
    lemma_xy_to_index_in_range(x, y);
}

/// A row-major frame rearranged into the order of the LED chain.
pub open spec fn spec_chain_order(frame: Seq<RGB8>) -> Seq<RGB8> {
    Seq::new(
        MATRIX_PIXEL_COUNT as nat,
        |i: int| frame[spec_index_to_y(i) * MATRIX_WIDTH + spec_index_to_x(i)],
    )
}

/// In chain order, the LED at column `x`, row `y` has the colour that the
/// row-major frame gives position `y * MATRIX_WIDTH + x`.
pub proof fn lemma_chain_order_at(frame: Seq<RGB8>, x: int, y: int)
    requires
        0 <= x < MATRIX_WIDTH,
        0 <= y < MATRIX_HEIGHT,
    ensures
        spec_chain_order(frame)[spec_xy_to_index(x, y)] == frame[y * MATRIX_WIDTH + x],
{
    lemma_xy_to_index_in_range(x, y);
    lemma_index_to_xy(x, y);
}

/// Rearranges a row-major frame into the order in which the LEDs are chained.
pub fn to_chain_order(frame: &Frame) -> (chain: Frame)
    ensures
        chain@ == spec_chain_order(frame@),
{
    let mut chain = [RGB8 { r: 0, g: 0, b: 0 }; MATRIX_PIXEL_COUNT];
    for y in 0..MATRIX_HEIGHT
        invariant
            chain@.len() == MATRIX_PIXEL_COUNT,
            forall|xx: int, yy: int|
                0 <= xx < MATRIX_WIDTH && 0 <= yy < y ==> #[trigger] chain@[spec_xy_to_index(xx, yy)]
                    == frame@[yy * MATRIX_WIDTH + xx],
    {
        for x in 0..MATRIX_WIDTH
            invariant
                0 <= y < MATRIX_HEIGHT,
                chain@.len() == MATRIX_PIXEL_COUNT,
                forall|xx: int, yy: int|
                    0 <= xx < MATRIX_WIDTH && 0 <= yy < y ==> #[trigger] chain@[spec_xy_to_index(
                        xx,
                        yy,
                    )] == frame@[yy * MATRIX_WIDTH + xx],
                forall|xx: int|
                    0 <= xx < x ==> #[trigger] chain@[spec_xy_to_index(xx, y as int)] == frame@[y
                        * MATRIX_WIDTH + xx],
        {
            proof {
                lemma_xy_to_index_in_range(x as int, y as int);
            }
            let ghost before = chain@;
            let i = xy_to_index(x, y);
            chain[i] = frame[y * MATRIX_WIDTH + x];
            assert forall|xx: int, yy: int|
                0 <= xx < MATRIX_WIDTH && 0 <= yy < MATRIX_HEIGHT && (xx != x || yy != y)
                    implies #[trigger] chain@[spec_xy_to_index(xx, yy)] == before[spec_xy_to_index(
                xx,
                yy,
            )] by {
                lemma_xy_to_index_in_range(xx, yy);
                if spec_xy_to_index(xx, yy) == i {
                    lemma_xy_to_index_injective(xx, yy, x as int, y as int);
                }
            }
        }
    }
    assert forall|i: int| 0 <= i < MATRIX_PIXEL_COUNT implies #[trigger] chain@[i]
        == spec_chain_order(frame@)[i] by {
        lemma_xy_to_index_surjective(i);
        let xx = spec_index_to_x(i);
        let yy = spec_index_to_y(i);
        assert(chain@[spec_xy_to_index(xx, yy)] == frame@[yy * MATRIX_WIDTH + xx]);
    }
    assert(chain@ =~= spec_chain_order(frame@));
    chain
}

} // verus!
