//! Display geometry and text formatting for the performance screen.
//!
//! The drawing itself is the display sink's job; these functions compute
//! what it draws: pixel offsets of the text lines, right-aligned text
//! positions, bar lengths for a given load, and the fixed-width percent
//! figure shown beside each bar.

use crate::message::LOAD_SCALE;
use vstd::prelude::*;
use vstd::string::StringExecFns;
use vstd::string::StringSliceAdditionalSpecFns;

verus! {

/// Display width in pixels.
pub const DISP_WIDTH: i32 = 240;

/// Horizontal padding at each display edge, in pixels.
pub const DISP_X_PAD: i32 = 3;

/// Vertical padding at the display top, in pixels.
pub const DISP_Y_PAD: i32 = 3;

/// Vertical padding between text lines, in pixels.
pub const LINE_Y_PAD: i32 = 6;

/// Character cell width of the display font, in pixels.
pub const FONT_WIDTH: i32 = 10;

/// Character cell height of the display font, in pixels.
pub const FONT_HEIGHT: i32 = 20;

/// Baseline offset of the display font, in pixels from the cell top.
pub const FONT_BASELINE: i32 = 15;

/// Width of a load bar, in pixels.
pub const BAR_WIDTH: u32 = 234;

/// Height of a load bar, in pixels.
pub const BAR_HEIGHT: u32 = 15;

/// Lines of text the screen can hold, bounding every line number used.
pub const MAX_LINES: i32 = 16;

/// The screen Y pixel offset of the top of text line `line`.
pub fn line_y_offset(line: i32) -> (y: i32)
    requires
        0 <= line <= MAX_LINES,
    ensures
        y == DISP_Y_PAD + line * (LINE_Y_PAD + FONT_HEIGHT),
{
    DISP_Y_PAD + line * (LINE_Y_PAD + FONT_HEIGHT)
}

/// The point at which to render text starting at X pixel offset `x` on
/// text line `line`.
pub fn text_point(x: i32, line: i32) -> (p: (i32, i32))
    requires
        0 <= line <= MAX_LINES,
    ensures
        p.0 == x,
        p.1 == DISP_Y_PAD + line * (LINE_Y_PAD + FONT_HEIGHT) + FONT_BASELINE,
{
    (x, line_y_offset(line) + FONT_BASELINE)
}

/// The point at which to render `text` right-aligned on text line `line`.
/// Text is measured in font cells, one per byte of its ASCII content.
pub fn text_point_right(line: i32, text: &str) -> (p: (i32, i32))
    requires
        0 <= line <= MAX_LINES,
        text.spec_bytes().len() <= 24,
    ensures
        p.0 == DISP_WIDTH - DISP_X_PAD - text.spec_bytes().len() * FONT_WIDTH,
        p.1 == DISP_Y_PAD + line * (LINE_Y_PAD + FONT_HEIGHT) + FONT_BASELINE,
{
    let text_width = (text.len() as i32) * FONT_WIDTH;
    text_point(DISP_WIDTH - DISP_X_PAD - text_width, line)
}

/// The filled pixel width of a bar showing load `val`, clipped to the bar.
pub fn bar_width_px(val: u32) -> (w: u32)
    ensures
        w == if (BAR_WIDTH - 1) * val as int / (LOAD_SCALE as int) < BAR_WIDTH - 1 {
            (BAR_WIDTH - 1) * val as int / (LOAD_SCALE as int)
        } else {
            (BAR_WIDTH - 1) as int
        },
{
    let max_x: u32 = BAR_WIDTH - 1;
    proof {
        assert((max_x as int) * (val as int) <= 233 * 0xffff_ffff) by (nonlinear_arith)
            requires
                max_x == 233,
                val <= 0xffff_ffffu32,
        ;
    }
    let scaled: u64 = (max_x as u64) * (val as u64) / (LOAD_SCALE as u64);
    if scaled < max_x as u64 {
        scaled as u32
    } else {
        max_x
    }
}

/// The digit character for `d`.
pub open spec fn digit_char(d: int) -> char {
    if d == 0 {
        '0'
    } else if d == 1 {
        '1'
    } else if d == 2 {
        '2'
    } else if d == 3 {
        '3'
    } else if d == 4 {
        '4'
    } else if d == 5 {
        '5'
    } else if d == 6 {
        '6'
    } else if d == 7 {
        '7'
    } else if d == 8 {
        '8'
    } else {
        '9'
    }
}

/// The characters of the percent figure for load `ratio`: two integer
/// digits (a leading zero shown as a space), clipped at 99.9, with one
/// fractional digit when `fractional` is set.
pub open spec fn percent_chars(ratio: u32, fractional: bool) -> Seq<char> {
    let num = if ratio / 10 < 999 {
        ratio as int / 10
    } else {
        999int
    };
    let tens = if num / 100 == 0 {
        ' '
    } else {
        digit_char(num / 100)
    };
    seq![tens, digit_char(num / 10 % 10)] + if fractional {
        seq!['.', digit_char(num % 10)]
    } else {
        Seq::empty()
    }
}

/// One digit as a string slice.
fn digit_str(d: u32) -> (r: &'static str)
    requires
        d <= 9,
    ensures
        r@ == seq![digit_char(d as int)],
{
    proof {
        reveal_strlit("0");
        reveal_strlit("1");
        reveal_strlit("2");
        reveal_strlit("3");
        reveal_strlit("4");
        reveal_strlit("5");
        reveal_strlit("6");
        reveal_strlit("7");
        reveal_strlit("8");
        reveal_strlit("9");
    }
    match d {
        0 => "0",
        1 => "1",
        2 => "2",
        3 => "3",
        4 => "4",
        5 => "5",
        6 => "6",
        7 => "7",
        8 => "8",
        _ => "9",
    }
}

/// Formats load `ratio` as the percent figure drawn beside a bar.
pub fn percent_string(ratio: u32, fractional: bool) -> (r: String)
    ensures
        r@ == percent_chars(ratio, fractional),
{
    proof {
        reveal_strlit(" ");
        reveal_strlit(".");
    }
    let num: u32 = {
        let n: u32 = ratio / 10;
        if n < 999 {
            n
        } else {
            999
        }
    };
    let mut result = String::new();
    if num / 100 == 0 {
        result.append(" ");
    } else {
        result.append(digit_str(num / 100));
    }
    result.append(digit_str(num / 10 % 10));
    if fractional {
        result.append(".");
        result.append(digit_str(num % 10));
    }
    assert(result@ =~= percent_chars(ratio, fractional));
    result
}

} // verus!
