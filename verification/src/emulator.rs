//! The cell-grid terminal emulator, `vt100::Parser`, and what this crate
//! relies on from it.
//!
//! The emulator is driven with bytes and asked for the cursor and the cell
//! contents. Its state is modelled by the bytes it has consumed since it was
//! made and by the size it was made with; every answer it gives is named as
//! a function of those. Nothing in this file is proved: the contracts below
//! describe the `vt100` crate.

use vstd::prelude::*;

verus! {

/// The emulator. Opaque: its state is read only through the functions below.
#[verifier::external_type_specification]
#[verifier::external_body]
pub struct ExParser(vt100::Parser);

/// The screen of an emulator, handed out for queries this crate does not
/// cover. Opaque.
#[verifier::external_type_specification]
#[verifier::external_body]
pub struct ExScreen(vt100::Screen);

/// Every byte the emulator has consumed since it was made, in order.
pub uninterp spec fn emulator_input(parser: vt100::Parser) -> Seq<u8>;

/// The `(rows, cols)` the emulator was made with.
pub uninterp spec fn emulator_size(parser: vt100::Parser) -> (u16, u16);

/// The `(row, col)` of the cursor, counted from zero, on a screen of the
/// given size that has consumed `input`.
pub uninterp spec fn cursor_after(rows: u16, cols: u16, input: Seq<u8>) -> (u16, u16);

/// The visible text of a screen of the given size that has consumed `input`.
pub uninterp spec fn contents_after(rows: u16, cols: u16, input: Seq<u8>) -> Seq<char>;

/// The text held by one cell of a screen of the given size that has consumed
/// `input`, or `None` where the screen has no such cell.
pub uninterp spec fn cell_after(rows: u16, cols: u16, input: Seq<u8>, row: u16, col: u16) -> Option<
    Seq<char>,
>;

/// The smallest number of rows that the emulator supports.
pub const MIN_ROWS: u16 = 2;

/// The smallest number of columns that the emulator supports: the width of
/// the widest character.
pub const MIN_COLS: u16 = 3;

/// The largest number of columns that the emulator supports.
pub const MAX_COLS: u16 = 65527;

/// The sizes on which the emulator can be driven with any input.
///
/// `vt100` computes with sixteen-bit numbers that it does not guard. With a
/// single row it subtracts below zero when a line wraps and the screen
/// scrolls. Before it draws a character it subtracts the character's width
/// from the number of columns, and one character is three columns wide, so
/// with fewer than three columns that subtraction goes below zero. With
/// more than `MAX_COLS` columns it adds past sixteen bits when it advances
/// to the next tab stop.
pub open spec fn supported_size(rows: u16, cols: u16) -> bool {
    rows >= MIN_ROWS && MIN_COLS <= cols <= MAX_COLS
}

/// `vt100::Parser::new` with no scrollback: a fresh emulator of the given
/// size that has consumed nothing.
#[verifier::external_body]
pub(crate) fn new_emulator(rows: u16, cols: u16) -> (parser: vt100::Parser)
    requires
        supported_size(rows, cols),
    ensures
        emulator_input(parser) == Seq::<u8>::empty(),
        emulator_size(parser) == (rows, cols),
{
    vt100::Parser::new(rows, cols, 0)
}

/// `vt100::Parser::process`: the emulator consumes `bytes` one by one, after
/// what it has consumed before. Its size does not change.
#[verifier::external_body]
pub(crate) fn process(parser: &mut vt100::Parser, bytes: &[u8])
    requires
        supported_size(emulator_size(*old(parser)).0, emulator_size(*old(parser)).1),
    ensures
        emulator_input(*final(parser)) == emulator_input(*old(parser)) + bytes@,
        emulator_size(*final(parser)) == emulator_size(*old(parser)),
{
    parser.process(bytes)
}

/// `vt100::Screen::cursor_position` on the emulator's screen.
#[verifier::external_body]
pub(crate) fn cursor_of(parser: &vt100::Parser) -> (pos: (u16, u16))
    ensures
        pos == cursor_after(
            emulator_size(*parser).0,
            emulator_size(*parser).1,
            emulator_input(*parser),
        ),
{
    parser.screen().cursor_position()
}

/// `vt100::Screen::contents` on the emulator's screen.
#[verifier::external_body]
pub(crate) fn contents_of(parser: &vt100::Parser) -> (text: String)
    ensures
        text@ == contents_after(
            emulator_size(*parser).0,
            emulator_size(*parser).1,
            emulator_input(*parser),
        ),
{
    parser.screen().contents()
}

/// `vt100::Screen::cell` followed by `vt100::Cell::contents`: the text of
/// the cell at `(row, col)`, or `None` where `cell` returns `None`.
#[verifier::external_body]
pub(crate) fn cell_text_of(parser: &vt100::Parser, row: u16, col: u16) -> (text: Option<String>)
    ensures
        match text {
            Some(t) => cell_after(
                emulator_size(*parser).0,
                emulator_size(*parser).1,
                emulator_input(*parser),
                row,
                col,
            ) == Some(t@),
            None => cell_after(
                emulator_size(*parser).0,
                emulator_size(*parser).1,
                emulator_input(*parser),
                row,
                col,
            ) is None,
        },
{
    match parser.screen().cell(row, col) {
        Some(cell) => Some(cell.contents()),
        None => None,
    }
}

/// Every byte consumed by the emulator that a screen belongs to, in order.
pub uninterp spec fn screen_input(screen: vt100::Screen) -> Seq<u8>;

/// The `(rows, cols)` of a screen.
pub uninterp spec fn screen_size(screen: vt100::Screen) -> (u16, u16);

/// `vt100::Parser::screen`: the emulator's own screen, by reference. It is
/// the screen that the emulator has drawn on: it has the emulator's size and
/// shows what the bytes consumed so far have made of it.
pub assume_specification[ vt100::Parser::screen ](parser: &vt100::Parser) -> (screen:
    &vt100::Screen)
    ensures
        screen_input(*screen) == emulator_input(*parser),
        screen_size(*screen) == emulator_size(*parser),
;

} // verus!
