//! The state of the terminal screen, rebuilt from the bytes a program has
//! written.
//!
//! A [`ScreenState`] hands every byte to the cell-grid emulator and to the
//! Sixel extractor. What it reports is a function of its size and of all
//! the bytes fed so far; how the bytes were divided among calls of `feed`
//! makes no difference.

use vstd::prelude::*;
use vstd::slice::slice_subrange;
use vstd::string::{StringExecFns, StringSliceAdditionalSpecFns};
use vstd::utf8::{decode_utf8, encode_utf8, encode_utf8_decode_utf8, is_char_boundary};
use crate::emulator::{
    cell_after,
    cell_text_of,
    contents_after,
    contents_of,
    cursor_after,
    cursor_of,
    emulator_input,
    emulator_size,
    new_emulator,
    process,
    screen_input,
    screen_size,
    supported_size,
    MAX_COLS,
    MIN_COLS,
    MIN_ROWS,
};
use crate::error::TermTestError;
use crate::extractor::{
    advance,
    block,
    completed,
    lemma_block_yields_region,
    lemma_cursor_ignored,
    lemma_run_concat,
    no_terminator,
    region_of,
    region_views,
    regions_found,
    run,
    RegionView,
    ScanState,
    SixelRegion,
    SixelScanner,
};
use crate::text::{occurs_in, pad_left, decimal_text, row_label, str_contains, str_starts_with};

verus! {

/// For each byte of `input`, the cursor position that the bytes before it
/// have established on a screen of the given size.
pub open spec fn cursor_track(rows: u16, cols: u16, input: Seq<u8>) -> Seq<(u16, u16)> {
    Seq::new(input.len(), |i: int| cursor_after(rows, cols, input.take(i)))
}

/// The extractor's state after a screen of the given size has consumed
/// `input`.
pub open spec fn scanner_after(rows: u16, cols: u16, input: Seq<u8>) -> ScanState {
    run(ScanState::initial(), input, cursor_track(rows, cols, input))
}

/// The graphics regions that `input` holds, in the order in which they are
/// completed, each placed at the cursor position that the output before its
/// introducer has established.
pub open spec fn regions_after(rows: u16, cols: u16, input: Seq<u8>) -> Seq<RegionView> {
    regions_found(ScanState::initial(), input, cursor_track(rows, cols, input))
}

/// The text of one cell; a cell that the emulator does not have reads as a
/// single space.
pub open spec fn cell_or_blank(rows: u16, cols: u16, input: Seq<u8>, row: u16, col: u16) -> Seq<
    char,
> {
    match cell_after(rows, cols, input, row, col) {
        Some(text) => text,
        None => seq![' '],
    }
}

/// The text of the first `upto` cells of a row, left to right.
pub open spec fn row_prefix(rows: u16, cols: u16, input: Seq<u8>, row: u16, upto: int) -> Seq<
    char,
>
    decreases upto,
{
    if upto <= 0 {
        Seq::empty()
    } else {
        row_prefix(rows, cols, input, row, upto - 1) + cell_or_blank(
            rows,
            cols,
            input,
            row,
            (upto - 1) as u16,
        )
    }
}

/// The text of a whole row; empty for a row the screen does not have.
pub open spec fn row_text(rows: u16, cols: u16, input: Seq<u8>, row: u16) -> Seq<char> {
    if row >= rows {
        Seq::empty()
    } else {
        row_prefix(rows, cols, input, row, cols as int)
    }
}

/// The first character of a cell, where the cell exists and is not empty.
pub open spec fn first_char(rows: u16, cols: u16, input: Seq<u8>, row: u16, col: u16) -> Option<
    char,
> {
    if row >= rows || col >= cols {
        None
    } else {
        match cell_after(rows, cols, input, row, col) {
            Some(text) => if text.len() > 0 {
                Some(text[0])
            } else {
                None
            },
            None => None,
        }
    }
}

/// Whether `text` stands in `line` at the byte offset `at` of the line's
/// UTF-8 form: the offset lies before the end of the line and on the first
/// byte of a character, and the characters from there on begin with `text`.
pub open spec fn starts_at(line: Seq<char>, at: int, text: Seq<char>) -> bool {
    let bytes = encode_utf8(line);
    &&& at < bytes.len()
    &&& is_char_boundary(bytes, at)
    &&& text.is_prefix_of(decode_utf8(bytes.subrange(at, bytes.len() as int)))
}

/// One line of the numbered listing: the row's label, ` | `, and its text.
pub open spec fn numbered_line(rows: u16, cols: u16, input: Seq<u8>, row: u16) -> Seq<char> {
    pad_left(decimal_text(row as nat), 3) + seq![' ', '|', ' '] + row_text(rows, cols, input, row)
}

/// The numbered lines of the first `upto` rows, separated by line feeds.
pub open spec fn numbered_listing(rows: u16, cols: u16, input: Seq<u8>, upto: int) -> Seq<char>
    decreases upto,
{
    if upto <= 0 {
        Seq::empty()
    } else if upto == 1 {
        numbered_line(rows, cols, input, 0)
    } else {
        numbered_listing(rows, cols, input, upto - 1) + seq!['\n'] + numbered_line(
            rows,
            cols,
            input,
            (upto - 1) as u16,
        )
    }
}

/// What one more byte does to the extractor and to the list of regions.
pub proof fn lemma_feed_byte(rows: u16, cols: u16, input: Seq<u8>, byte: u8)
    ensures
        scanner_after(rows, cols, input.push(byte)) == advance(
            scanner_after(rows, cols, input),
            byte,
            cursor_after(rows, cols, input),
        ),
        regions_after(rows, cols, input.push(byte)) == match completed(
            scanner_after(rows, cols, input),
            byte,
        ) {
            Some(region) => regions_after(rows, cols, input).push(region),
            None => regions_after(rows, cols, input),
        },
{
    let longer = input.push(byte);
    assert(longer.drop_last() =~= input);
    assert(longer.take(input.len() as int) =~= input);
    assert(cursor_track(rows, cols, longer).drop_last() =~= cursor_track(rows, cols, input)) by {
        assert forall|i: int| 0 <= i < input.len() implies longer.take(i) == input.take(i) by {
            assert(longer.take(i) =~= input.take(i));
        }
    }
    assert(cursor_track(rows, cols, longer).last() == cursor_after(rows, cols, input));
}

/// For each byte of `more`, the cursor position established by `before`
/// and the bytes of `more` in front of it.
pub open spec fn cursor_track_from(rows: u16, cols: u16, before: Seq<u8>, more: Seq<u8>) -> Seq<
    (u16, u16),
> {
    Seq::new(more.len(), |i: int| cursor_after(rows, cols, before + more.take(i)))
}

/// Output that arrives later is scanned from the state that the earlier
/// output left, and its regions follow the earlier ones.
pub proof fn lemma_feed_more(rows: u16, cols: u16, input: Seq<u8>, more: Seq<u8>)
    ensures
        scanner_after(rows, cols, input + more) == run(
            scanner_after(rows, cols, input),
            more,
            cursor_track_from(rows, cols, input, more),
        ),
        regions_after(rows, cols, input + more) == regions_after(rows, cols, input)
            + regions_found(
            scanner_after(rows, cols, input),
            more,
            cursor_track_from(rows, cols, input, more),
        ),
{
    let whole = input + more;
    let head = cursor_track(rows, cols, input);
    let tail = cursor_track_from(rows, cols, input, more);
    assert(cursor_track(rows, cols, whole) =~= head + tail) by {
        assert forall|i: int| 0 <= i < whole.len() implies cursor_track(rows, cols, whole)[i] == (
        head + tail)[i] by {
            if i < input.len() {
                assert(whole.take(i) =~= input.take(i));
            } else {
                assert(whole.take(i) =~= input + more.take(i - input.len()));
            }
        }
    }
    lemma_run_concat(ScanState::initial(), input, head, more, tail);
}

/// The regions found so far stay, in their places, whatever output follows.
pub proof fn lemma_regions_never_shrink(rows: u16, cols: u16, input: Seq<u8>, more: Seq<u8>)
    ensures
        regions_after(rows, cols, input).is_prefix_of(regions_after(rows, cols, input + more)),
{
    lemma_feed_more(rows, cols, input, more);
    let first = regions_after(rows, cols, input);
    let second = regions_found(
        scanner_after(rows, cols, input),
        more,
        cursor_track_from(rows, cols, input, more),
    );
    assert((first + second).subrange(0, first.len() as int) =~= first);
}

/// A whole Sixel block that arrives while the extractor is outside any
/// block adds exactly one region, at the cursor position that the output
/// before the block has established, with the block's payload and the size
/// that the payload declares. The extractor is idle afterwards.
pub proof fn lemma_block_adds_region(rows: u16, cols: u16, input: Seq<u8>, payload: Seq<u8>)
    requires
        scanner_after(rows, cols, input).outside_block(),
        no_terminator(payload),
    ensures
        regions_after(rows, cols, input + block(payload)) == regions_after(rows, cols, input).push(
            region_of(cursor_after(rows, cols, input), payload),
        ),
        scanner_after(rows, cols, input + block(payload)) == ScanState::initial(),
{
    let more = block(payload);
    let tail = cursor_track_from(rows, cols, input, more);
    lemma_feed_more(rows, cols, input, more);
    lemma_block_yields_region(scanner_after(rows, cols, input), payload, tail);
    assert(input + more.take(0) =~= input);
    assert(regions_after(rows, cols, input) + seq![
        region_of(cursor_after(rows, cols, input), payload),
    ] =~= regions_after(rows, cols, input).push(
        region_of(cursor_after(rows, cols, input), payload),
    ));
}

/// The screen of a terminal under test.
pub struct ScreenState {
    parser: vt100::Parser,
    width: u16,
    height: u16,
    scanner: SixelScanner,
    regions: Vec<SixelRegion>,
}

impl ScreenState {
    /// Every byte fed since the screen was made, in order.
    pub closed spec fn fed(&self) -> Seq<u8> {
        emulator_input(self.parser)
    }

    /// The screen's width in columns.
    pub closed spec fn cols(&self) -> u16 {
        self.width
    }

    /// The screen's height in rows.
    pub closed spec fn rows(&self) -> u16 {
        self.height
    }

    /// The regions found so far, oldest first.
    pub closed spec fn regions(&self) -> Seq<RegionView> {
        region_views(self.regions@)
    }

    /// The state of the extractor.
    pub closed spec fn scanner(&self) -> ScanState {
        self.scanner@
    }

    /// The emulator has the size of the screen.
    pub closed spec fn emulator_fits(&self) -> bool {
        emulator_size(self.parser) == (self.height, self.width)
    }

    /// The screen is consistent: its size is one that the emulator supports,
    /// and its extractor and its regions are what the bytes fed so far
    /// determine.
    pub open spec fn wf(&self) -> bool {
        &&& supported_size(self.rows(), self.cols())
        &&& self.emulator_fits()
        &&& self.scanner() == scanner_after(self.rows(), self.cols(), self.fed())
        &&& self.regions() == regions_after(self.rows(), self.cols(), self.fed())
    }

    /// An empty screen of `width` columns and `height` rows, or the error
    /// `InvalidDimensions` for a size that the emulator does not support.
    ///
    /// Supported are at least two rows and from three to 65527 columns.
    /// Smaller and wider screens are refused because the emulator can
    /// panic on them: see [`supported_size`].
    pub fn try_new(width: u16, height: u16) -> (r: Result<ScreenState, TermTestError>)
        ensures
            r is Ok <==> supported_size(height, width),
            r matches Ok(state) ==> state.wf() && state.cols() == width && state.rows() == height
                && state.fed() == Seq::<u8>::empty() && state.regions() == Seq::<
                RegionView,
            >::empty(),
            r matches Err(e) ==> e matches TermTestError::InvalidDimensions { width: w, height: h }
                && w == width && h == height,
    {
        if height >= MIN_ROWS && width >= MIN_COLS && width <= MAX_COLS {
            Ok(ScreenState::new(width, height))
        } else {
            Err(TermTestError::InvalidDimensions { width, height })
        }
    }

    /// An empty screen of `width` columns and `height` rows.
    ///
    /// The size must be one that the emulator supports: at least two rows
    /// and from three to 65527 columns. On other sizes the emulator can
    /// panic while it consumes output (see [`supported_size`]), so they are
    /// not accepted here. Callers that cannot vouch for the size use
    /// [`ScreenState::try_new`].
    pub fn new(width: u16, height: u16) -> (state: ScreenState)
        requires
            supported_size(height, width),
        ensures
            state.wf(),
            state.cols() == width,
            state.rows() == height,
            state.fed() == Seq::<u8>::empty(),
            state.regions() == Seq::<RegionView>::empty(),
    {
        let state = ScreenState {
            parser: new_emulator(height, width),
            width,
            height,
            scanner: SixelScanner::new(),
            regions: Vec::new(),
        };
        proof {
            assert(state.regions() =~= Seq::<RegionView>::empty());
        }
        state
    }

    /// Feeds output bytes to the screen. The emulator consumes them, and the
    /// extractor scans them for graphics regions; a region is placed at the
    /// cursor position that the bytes before its introducer have established.
    pub fn feed(&mut self, data: &[u8])
        requires
            old(self).wf(),
        ensures
            final(self).wf(),
            final(self).fed() == old(self).fed() + data@,
            final(self).cols() == old(self).cols(),
            final(self).rows() == old(self).rows(),
            old(self).regions().is_prefix_of(final(self).regions()),
    {
        // The extractor runs ahead of the emulator. Only when the extractor
        // is about to read the cursor are the bytes before that point
        // handed to the emulator, so that the position read is the one
        // those bytes have established. `flushed` counts the bytes of
        // `data` that the emulator has consumed.
        let n: usize = data.len();
        let ghost before = self.fed();
        let ghost rows = self.height;
        let ghost cols = self.width;
        let mut i: usize = 0;
        let mut flushed: usize = 0;
        proof {
            assert(before + data@.take(0) =~= before);
        }
        while i < n
            invariant
                n == data@.len(),
                flushed <= i <= n,
                self.height == rows,
                self.width == cols,
                supported_size(rows, cols),
                emulator_size(self.parser) == (rows, cols),
                emulator_input(self.parser) == before + data@.take(flushed as int),
                self.scanner@ == scanner_after(rows, cols, before + data@.take(i as int)),
                region_views(self.regions@) == regions_after(
                    rows,
                    cols,
                    before + data@.take(i as int),
                ),
            decreases n - i,
        {
            let byte: u8 = data[i];
            let ghost seen = before + data@.take(i as int);
            let mut cursor: (u16, u16) = (0, 0);
            if self.scanner.samples_cursor(byte) {
                process(&mut self.parser, slice_subrange(data, flushed, i));
                proof {
                    assert(before + data@.take(flushed as int) + data@.subrange(
                        flushed as int,
                        i as int,
                    ) =~= seen);
                }
                flushed = i;
                cursor = cursor_of(&self.parser);
            }
            proof {
                lemma_feed_byte(rows, cols, seen, byte);
                if !self.scanner@.samples_cursor(byte) {
                    lemma_cursor_ignored(
                        self.scanner@,
                        byte,
                        cursor,
                        cursor_after(rows, cols, seen),
                    );
                }
                assert(before + data@.take(i + 1) =~= seen.push(byte));
            }
            let ghost earlier = self.regions@;
            match self.scanner.step(byte, cursor) {
                Some(region) => {
                    self.regions.push(region);
                    proof {
                        assert(region_views(self.regions@) =~= region_views(earlier).push(
                            region@,
                        ));
                    }
                },
                None => {},
            }
            i = i + 1;
        }
        process(&mut self.parser, slice_subrange(data, flushed, n));
        proof {
            assert(data@.take(n as int) =~= data@);
            assert(before + data@.take(flushed as int) + data@.subrange(flushed as int, n as int)
                =~= before + data@);
            lemma_regions_never_shrink(rows, cols, before, data@);
        }
    }

    /// The screen's size as `(width, height)`.
    pub fn size(&self) -> (size: (u16, u16))
        ensures
            size == (self.cols(), self.rows()),
    {
        (self.width, self.height)
    }

    /// The cursor position as `(row, col)`, both counted from zero.
    pub fn cursor_position(&self) -> (pos: (u16, u16))
        requires
            self.wf(),
        ensures
            pos == cursor_after(self.rows(), self.cols(), self.fed()),
    {
        cursor_of(&self.parser)
    }

    /// The visible text of the screen.
    pub fn contents(&self) -> (text: String)
        requires
            self.wf(),
        ensures
            text@ == contents_after(self.rows(), self.cols(), self.fed()),
    {
        contents_of(&self.parser)
    }

    /// The text of one row: the text of its cells from left to right, a
    /// cell that the emulator does not have reading as a space. Empty for a
    /// row below the screen.
    pub fn row_contents(&self, row: u16) -> (text: String)
        requires
            self.wf(),
        ensures
            text@ == row_text(self.rows(), self.cols(), self.fed(), row),
    {
        let mut text = String::new();
        if row >= self.height {
            return text;
        }
        let mut col: u16 = 0;
        while col < self.width
            invariant
                col <= self.width,
                self.wf(),
                text@ == row_prefix(self.rows(), self.cols(), self.fed(), row, col as int),
            decreases self.width - col,
        {
            match cell_text_of(&self.parser, row, col) {
                Some(cell) => {
                    text.append(cell.as_str());
                },
                None => {
                    proof {
                        reveal_strlit(" ");
                        assert(" "@ =~= seq![' ']);
                    }
                    text.append(" ");
                },
            }
            col = col + 1;
        }
        text
    }

    /// The first character of the cell at `(row, col)`; `None` outside the
    /// screen and for a cell without text.
    pub fn char_at(&self, row: u16, col: u16) -> (c: Option<char>)
        requires
            self.wf(),
        ensures
            c == first_char(self.rows(), self.cols(), self.fed(), row, col),
    {
        if row >= self.height || col >= self.width {
            return None;
        }
        match cell_text_of(&self.parser, row, col) {
            Some(cell) => {
                if cell.as_str().is_empty() {
                    None
                } else {
                    Some(cell.as_str().get_char(0))
                }
            },
            None => None,
        }
    }

    /// Whether `text` occurs anywhere in the visible text of the screen.
    pub fn contains(&self, text: &str) -> (found: bool)
        requires
            self.wf(),
        ensures
            found == occurs_in(text@, contents_after(self.rows(), self.cols(), self.fed())),
    {
        let contents = self.contents();
        str_contains(contents.as_str(), text)
    }

    /// Whether the text of row `row` holds `text` at byte offset `col`.
    ///
    /// The offset counts the bytes of the row's text in UTF-8, so it equals
    /// the column only while the row holds one-byte characters in every
    /// cell before it. The answer is false outside the screen, at or past
    /// the end of the row's text, and where the offset falls inside a
    /// character.
    pub fn text_at(&self, row: u16, col: u16, text: &str) -> (found: bool)
        requires
            self.wf(),
        ensures
            found == (row < self.rows() && col < self.cols() && starts_at(
                row_text(self.rows(), self.cols(), self.fed(), row),
                col as int,
                text@,
            )),
    {
        if row >= self.height || col >= self.width {
            return false;
        }
        let line = self.row_contents(row);
        let at: usize = col as usize;
        if at >= line.as_str().as_bytes().len() {
            return false;
        }
        if !line.as_str().is_char_boundary(at) {
            return false;
        }
        let (_, tail) = line.as_str().split_at(at);
        proof {
            encode_utf8_decode_utf8(tail@);
        }
        str_starts_with(tail, text)
    }

    /// The screen as numbered lines, one per row, separated by line feeds.
    pub fn debug_contents(&self) -> (listing: String)
        requires
            self.wf(),
        ensures
            listing@ == numbered_listing(
                self.rows(),
                self.cols(),
                self.fed(),
                self.rows() as int,
            ),
    {
        let mut listing = String::new();
        let mut row: u16 = 0;
        while row < self.height
            invariant
                row <= self.height,
                self.wf(),
                listing@ == numbered_listing(self.rows(), self.cols(), self.fed(), row as int),
            decreases self.height - row,
        {
            if row > 0 {
                proof {
                    reveal_strlit("\n");
                    assert("\n"@ =~= seq!['\n']);
                }
                listing.append("\n");
            }
            let label = row_label(row);
            let line = self.row_contents(row);
            proof {
                reveal_strlit(" | ");
                assert(" | "@ =~= seq![' ', '|', ' ']);
            }
            listing.append(label.as_str());
            listing.append(" | ");
            listing.append(line.as_str());
            proof {
                let r = self.rows();
                let c = self.cols();
                let f = self.fed();
                assert(listing@ =~= numbered_listing(r, c, f, row + 1));
            }
            row = row + 1;
        }
        listing
    }

    /// The emulator's own screen, for queries beyond those offered here.
    /// It is the screen that has consumed every byte fed so far, and it has
    /// the size of this screen.
    pub fn screen(&self) -> (screen: &vt100::Screen)
        ensures
            screen_input(*screen) == self.fed(),
            self.wf() ==> screen_size(*screen) == (self.rows(), self.cols()),
    {
        self.parser.screen()
    }

    /// The graphics regions found so far, oldest first.
    pub fn sixel_regions(&self) -> (regions: &[SixelRegion])
        ensures
            region_views(regions@) == self.regions(),
    {
        self.regions.as_slice()
    }

    /// Whether some region starts exactly at `(row, col)`.
    pub fn has_sixel_at(&self, row: u16, col: u16) -> (found: bool)
        ensures
            found == (exists|i: int|
                0 <= i < self.regions().len() && (#[trigger] self.regions()[i]).start_row == row
                    && self.regions()[i].start_col == col),
    {
        let mut i: usize = 0;
        while i < self.regions.len()
            invariant
                i <= self.regions.len(),
                forall|k: int|
                    0 <= k < i ==> !((#[trigger] self.regions()[k]).start_row == row
                        && self.regions()[k].start_col == col),
            decreases self.regions.len() - i,
        {
            if self.regions[i].start_row == row && self.regions[i].start_col == col {
                assert(self.regions()[i as int] == self.regions@[i as int]@);
                return true;
            }
            assert(self.regions()[i as int] == self.regions@[i as int]@);
            i = i + 1;
        }
        false
    }
}

} // verus!
