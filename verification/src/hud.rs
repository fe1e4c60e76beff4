use vstd::prelude::*;
use crate::decimal::{padded_decimal, zero_padded};

verus! {

/// Blocks of the enemy health gauge, one per remaining stage.
pub const HP_GAUGE_BLOCKS: usize = 6;

/// Characters of the score and frame-rate counters.
pub const COUNTER_WIDTH: usize = 7;

/// Whether gauge block `index` is shown: one block per stage still to come.
pub fn gauge_block_visible(index: usize, remain_index: usize) -> (visible: bool)
    ensures
        visible == (index < remain_index),
{
    index < remain_index
}

/// The character the frame-rate counter shows at `index`, counted from the
/// rightmost character of the padded rate.
pub fn fps_digit(fps: u64, index: usize) -> (c: char)
    requires
        index < COUNTER_WIDTH,
    ensures
        c == zero_padded(fps as nat, COUNTER_WIDTH as nat)[zero_padded(fps as nat, COUNTER_WIDTH as nat).len() - 1 - index],
{
    let text = padded_decimal(fps, COUNTER_WIDTH);
    text[text.len() - 1 - index]
}

/// Horizontal background lines needed so that they are as far apart as the
/// `vertical` lines across a window of `width` by `height`: the vertical
/// count scaled by the aspect ratio, rounded up.
pub fn horizontal_line_count(vertical: i32, width: i32, height: i32) -> (count: i32)
    requires
        height > 0,
        0 <= vertical,
        0 <= width,
        vertical * width + height - 1 <= i32::MAX,
    ensures
        count == (vertical * width + height - 1) / (height as int),
        count * height >= vertical * width,
        (count - 1) * height < vertical * width,
{
    proof {
        let a: int = vertical * width;
        let h: int = height as int;
        assert(0 <= a) by (nonlinear_arith)
            requires
                0 <= vertical,
                0 <= width,
                a == vertical * width,
        ;
        let q: int = (a + h - 1) / h;
        assert(q * h >= a && (q - 1) * h < a) by (nonlinear_arith)
            requires
                h > 0,
                a >= 0,
                q == (a + h - 1) / h,
        ;
        assert(a <= i32::MAX);
    }
    let area = vertical * width;
    (area + (height - 1)) / height
}

} // verus!
