//! Where things go on the panel, in logical pixels.
use crate::single::{nearest_single, round_to_single};
use crate::single::{law_rounding_error, law_small_numbers_are_exact, law_spacing};
use vstd::prelude::*;

verus! {

/// Left edge of the query text; it lines up with the column of result names.
pub const TEXT_LEFT: u32 = 68;

/// Top edge of the query text.
pub const TEXT_TOP: u32 = 12;

/// How far below the query text its drop shadow lies, in half pixels.
pub const SHADOW_DROP_HALVES: u32 = 3;

/// Font size and line height of the query text.
pub const FONT_SIZE: u32 = 20;

pub const LINE_HEIGHT: u32 = 26;

/// The scale of the output, in tenths. The buffer is rendered at this many times the logical
/// size and a viewport maps it back, so that a fractionally scaled output shows it pixel for pixel.
pub const RENDER_SCALE_TENTHS: u32 = 12;

/// The significand of the single closest to the render scale; its unit is `SCALE_UNIT`.
pub const SCALE_SIGNIFICAND: u128 = 10066330;

/// How many units of `SCALE_SIGNIFICAND` make one.
pub const SCALE_UNIT: u128 = 0x80_0000;

/// Height of the search bar, and of one result row.
pub const BAR_H: u32 = 50;

pub const ROW_H: u32 = 48;

/// Room left below the last result row.
pub const PANEL_PADDING: u32 = 16;

/// Font sizes of result names and of the lines below them.
pub const RESULT_FONT: u32 = 15;

pub const SUB_FONT: u32 = 13;

/// Left edge of the result names; it leaves room for the icon.
pub const RESULT_LEFT: u32 = 68;

/// Top edge of the first result row.
pub const RESULTS_TOP: u32 = 58;

/// A nudge that centres a name within its row.
pub const NAME_DY: u32 = 3;

/// Left edge and size of an icon's tile, and the size of the logo inset in it.
pub const ICON_LEFT: u32 = 20;

pub const ICON_SIZE: u32 = 33;

pub const ICON_INNER: u32 = 24;

/// The number of buffer pixels for a length in logical pixels: the length times the render scale
/// in single precision, rounded to a whole number, at least one and at most what a `u32` holds.
pub open spec fn physical_px(logical: nat) -> nat {
    let product = nearest_single(nearest_single(logical) * SCALE_SIGNIFICAND as nat);
    let whole = (product + SCALE_UNIT as nat / 2) / (SCALE_UNIT as nat);
    if whole < 1 {
        1
    } else if whole > u32::MAX {
        u32::MAX as nat
    } else {
        whole
    }
}

/// Logical px -> physical (buffer) px.
pub fn physical(logical: u32) -> (pixels: u32)
    ensures
        pixels == physical_px(logical as nat),
{
    let length: u128 = round_to_single(logical as u128);
    let product: u128 = round_to_single(length * SCALE_SIGNIFICAND);
    let whole: u128 = (product + SCALE_UNIT / 2) / SCALE_UNIT;
    if whole < 1 {
        1
    } else if whole > u32::MAX as u128 {
        u32::MAX
    } else {
        whole as u32
    }
}

/// Up to this length the buffer size is the closest whole number to 1.2 times the logical size.
pub const EXACT_SCALE_LIMIT: u32 = 800_000;

/// A buffer has 1.2 times as many pixels as the panel has logical ones, to the closest pixel.
pub proof fn law_physical_is_the_scaled_length(logical: nat)
    requires
        1 <= logical <= EXACT_SCALE_LIMIT,
    ensures
        physical_px(logical) == (logical * RENDER_SCALE_TENTHS as nat + 5) / 10,
{
    law_small_numbers_are_exact(logical);
    let exact = logical * SCALE_SIGNIFICAND as nat;
    law_rounding_error(exact);
    law_spacing(exact);
}

/// The top edge of result row `row`, as single precision rounds it.
pub open spec fn row_top_px(row: nat) -> nat {
    nearest_single(
        RESULTS_TOP as nat + nearest_single(ROW_H as nat * nearest_single(row)),
    )
}

/// The top edge of result row `row` (row 0 is the first one under the bar).
pub fn row_top(row: usize) -> (top: u128)
    ensures
        top == row_top_px(row as nat),
        top <= 0x1_0000_0000_0000_0000_0000,
{
    let index: u128 = round_to_single(row as u128);
    let offset: u128 = round_to_single(ROW_H as u128 * index);
    round_to_single(RESULTS_TOP as u128 + offset)
}

/// Rows before this one have tops that single precision holds exactly.
pub const EXACT_ROWS: usize = 349_524;

/// Result rows follow one another without gap or overlap, from the top of the results.
pub proof fn law_rows_are_stacked(row: nat)
    requires
        row < EXACT_ROWS,
    ensures
        row_top_px(row) == RESULTS_TOP + ROW_H * row,
{
    law_small_numbers_are_exact(row);
    law_small_numbers_are_exact(ROW_H as nat * row);
    law_small_numbers_are_exact(RESULTS_TOP as nat + ROW_H as nat * row);
}

/// The top edge of the logo on result row `row`: centred within the row.
pub open spec fn icon_top_px(row: nat) -> nat {
    nearest_single(row_top_px(row) + (ROW_H as nat - ICON_INNER as nat) as nat / 2)
}

/// The top edge of the logo on result row `row`.
pub fn icon_top(row: usize) -> (top: u128)
    ensures
        top == icon_top_px(row as nat),
{
    let edge: u128 = row_top(row);
    round_to_single(edge + (ROW_H - ICON_INNER) as u128 / 2)
}

/// The left edge of a logo, in half pixels: it is centred within its tile.
pub const ICON_LEFT_HALVES: u32 = 49;

/// A logo lies within its row, and is centred in its tile.
pub proof fn law_logo_is_inset(row: nat)
    requires
        row + 1 < EXACT_ROWS,
    ensures
        row_top_px(row) < icon_top_px(row),
        icon_top_px(row) + ICON_INNER < row_top_px(row + 1),
        ICON_LEFT_HALVES == 2 * ICON_LEFT + (ICON_SIZE - ICON_INNER),
{
    law_rows_are_stacked(row);
    law_rows_are_stacked(row + 1);
    law_small_numbers_are_exact(row_top_px(row) + 12);
}

/// Buffer sizes, by the numbers: six fifths of the panel's length, to the closest pixel, and at
/// least one pixel. Beyond 800000 the 24 bits of a single show, and at the end of the range the
/// size stays at the largest there is.
pub proof fn law_buffer_sizes(logical: u32)
    ensures
        logical == 0 ==> physical_px(logical as nat) == 1,
        1 <= logical <= 800_000 ==> physical_px(logical as nat) == (12 * logical + 5) / 10,
        logical <= 3_500_000_000 ==> -6 - logical / 100_000 <= 10 * physical_px(logical as nat) - 12
            * logical <= 10 + logical / 100_000,
        logical >= 3_600_000_000 ==> physical_px(logical as nat) == 0xffff_ffff,
        1 < physical_px(logical as nat) < 0xffff_ffff ==> ({
            let product = nearest_single(nearest_single(logical as nat) * 10_066_330);
            -4_194_304 <= product - physical_px(logical as nat) * 8_388_608 < 4_194_304
        }),
        physical_px(logical as nat) == 0xffff_ffff ==> nearest_single(
            nearest_single(logical as nat) * 10_066_330,
        ) >= 0xffff_ffff * 8_388_608 - 4_194_304,
{
    let l = logical as nat;
    if 1 <= logical <= 800_000 {
        law_physical_is_the_scaled_length(l);
    }
    law_rounding_error(l);
    law_spacing(l);
    if l < 0x100_0000 {
        law_small_numbers_are_exact(l);
    }
    let length = nearest_single(l);
    let exact = length * SCALE_SIGNIFICAND as nat;
    law_rounding_error(exact);
    law_spacing(exact);
    if exact < 0x100_0000 {
        law_small_numbers_are_exact(exact);
    }
}

/// Row and logo tops, by the numbers: rows are 48 apart from 58 on, logos 12 below the top of their
/// row. Beyond what 24 bits hold, a millionth of the way is lost at most.
pub proof fn law_row_tops(row: nat)
    ensures
        row < 349_524 ==> row_top_px(row) == 58 + 48 * row,
        row < 349_523 ==> icon_top_px(row) == 70 + 48 * row,
        -1 - row / 10_000 <= row_top_px(row) - (58 + 48 * row) <= 1 + row / 10_000,
        -1 - row / 10_000 <= icon_top_px(row) - (70 + 48 * row) <= 1 + row / 10_000,
        row_top_px(row) == nearest_single(58 + nearest_single(48 * nearest_single(row))),
        icon_top_px(row) == nearest_single(row_top_px(row) + 12),
{
    if row < 349_524 {
        law_rows_are_stacked(row);
    }
    if row < 349_523 {
        law_small_numbers_are_exact(row_top_px(row) + 12);
    } else {
        lemma_rounded(row);
        let index = nearest_single(row);
        lemma_rounded(48 * index);
        lemma_rounded(58 + nearest_single(48 * index));
        lemma_rounded(row_top_px(row) + 12);
    }
}

/// Rounding loses less than a number's ten-millionth.
proof fn lemma_rounded(n: nat)
    ensures
        -(n / 10_000_000) <= nearest_single(n) - n <= n / 10_000_000,
{
    law_rounding_error(n);
    law_spacing(n);
    if n < 0x100_0000 {
        law_small_numbers_are_exact(n);
    }
}

} // verus!
