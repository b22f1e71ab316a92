//! The display's side of the screen memory: 32 by 12 cells, one word each,
//! from address 0x8000.
use crate::cpu::Dcpu;
use vstd::prelude::*;

verus! {

/// The width of the screen in cells.
pub const SCREEN_WIDTH_IN_CELLS: u16 = 32;

/// The height of the screen in cells.
pub const SCREEN_HEIGHT_IN_CELLS: u16 = 12;

/// Where the screen's cells start in memory.
pub const SCREEN_LOCATION: u16 = 0x8000;

/// The number of colors in the palette.
pub const PALETTE_SIZE: u16 = 16;

/// Ticks in one blink: the first half shows the other background.
pub const BLINK_CYCLE_LENGTH: u32 = 60;

/// Data for configuring the displayed contents of a single cell on the monitor.
#[derive(Clone, Copy, Debug, PartialEq, Eq, Structural)]
pub struct CellConfig {
    pub row: u16,
    pub column: u16,
    pub fg_color_idx: u16,
    pub bg_color_idx: u16,
    pub char_idx: u16,
}

/// The four fields of a cell's word: the foreground color in bits 12 to
/// 15, the background color in bits 8 to 11, the blink flag in bit 7, the
/// character in bits 0 to 6.
pub open spec fn cell_fields(word: u16) -> (u16, u16, bool, u16) {
    (word >> 12u16, (word >> 8u16) & 0b1111, (word >> 7u16) & 0b1 == 1, word & 0b1111111)
}

/// The background that a blinking cell shows in the first half of a
/// blink: the color half the palette away.
pub open spec fn blink_color(bg_color_idx: u16) -> u16 {
    ((bg_color_idx + PALETTE_SIZE / 2) % (PALETTE_SIZE as int)) as u16
}

/// What cell `i` of the screen shows for its word. The cells run row by
/// row from the top left.
pub open spec fn cell_shown(i: u16, word: u16, should_blink: bool) -> CellConfig {
    let (fg, bg, blinkable, char_idx) = cell_fields(word);
    CellConfig {
        row: i / SCREEN_WIDTH_IN_CELLS,
        column: i % SCREEN_WIDTH_IN_CELLS,
        fg_color_idx: fg,
        bg_color_idx: if blinkable && should_blink {
            blink_color(bg)
        } else {
            bg
        },
        char_idx,
    }
}

/// Splits a cell's word into foreground color, background color, blink
/// flag and character.
pub fn decode_cell_word(word: u16) -> (fields: (u16, u16, bool, u16))
    ensures
        fields == cell_fields(word),
        fields.0 < PALETTE_SIZE,
        fields.1 < PALETTE_SIZE,
        fields.3 < 128,
{
    let fg_col_idx = word >> 12;
    let bg_col_idx = (word >> 8) & 0b1111;
    let blink = ((word >> 7) & 0b1) == 1;
    let char_idx = word & 0b1111111;
    assert(word >> 12u16 < 16 && (word >> 8u16) & 0b1111 < 16 && word & 0b1111111 < 128)
        by (bit_vector);
    (fg_col_idx, bg_col_idx, blink, char_idx)
}

/// What cell `i` of the screen shows, read from the processor's memory.
pub fn cell_config(dcpu: &Dcpu, i: u16, should_blink: bool) -> (config: CellConfig)
    requires
        i < SCREEN_WIDTH_IN_CELLS * SCREEN_HEIGHT_IN_CELLS,
    ensures
        config == cell_shown(i, dcpu@.mem[SCREEN_LOCATION + i], should_blink),
        config.row < SCREEN_HEIGHT_IN_CELLS,
        config.column < SCREEN_WIDTH_IN_CELLS,
        config.fg_color_idx < PALETTE_SIZE,
        config.bg_color_idx < PALETTE_SIZE,
{
    let (fg_col_idx, bg_col_idx, blinkable, char_idx) = decode_cell_word(
        dcpu.mem(SCREEN_LOCATION + i),
    );
    let bg_color_idx = if blinkable && should_blink {
        // If we're blinking, then put the background color as far apart
        // as it can be from its actual color.
        (bg_col_idx + PALETTE_SIZE / 2) % PALETTE_SIZE
    } else {
        bg_col_idx
    };
    CellConfig {
        row: i / SCREEN_WIDTH_IN_CELLS,
        column: i % SCREEN_WIDTH_IN_CELLS,
        fg_color_idx: fg_col_idx,
        bg_color_idx,
        char_idx,
    }
}

/// Whether a blinking cell shows its other background at this tick of
/// the blink.
pub fn should_blink(blink_timer: u32) -> (blink: bool)
    ensures
        blink == (blink_timer < BLINK_CYCLE_LENGTH / 2),
{
    blink_timer < BLINK_CYCLE_LENGTH / 2
}

/// The blink timer one tick later: it counts the ticks of a blink and
/// starts again at 0.
pub fn next_blink_timer(blink_timer: u32) -> (next: u32)
    ensures
        next == (blink_timer + 1) % (BLINK_CYCLE_LENGTH as int),
{
    (blink_timer % BLINK_CYCLE_LENGTH + 1) % BLINK_CYCLE_LENGTH
}

} // verus!
