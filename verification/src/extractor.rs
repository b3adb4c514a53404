//! The Sixel extractor: a byte-at-a-time scanner that finds the graphics
//! blocks embedded in terminal output.
//!
//! A block opens with the introducer `ESC P q` and closes with the string
//! terminator `ESC \`. Everything in between is its payload. The scanner
//! keeps its place across calls, so a block may arrive in any number of
//! pieces. A block whose terminator never arrives is never reported.

use vstd::prelude::*;
use vstd::slice::slice_to_vec;
use crate::raster::{parse_raster, raster_dims};

verus! {

/// The escape byte, which opens the introducer and the terminator.
pub const ESC: u8 = 0x1b;

/// `P`, the second byte of the introducer.
pub const DCS: u8 = 0x50;

/// `q`, the byte of the introducer that selects Sixel mode.
pub const SIXEL_MODE: u8 = 0x71;

/// `\`, the second byte of the terminator.
pub const BACKSLASH: u8 = 0x5c;

/// One graphics block found in the output.
#[derive(Debug, PartialEq, Eq)]
pub struct SixelRegion {
    /// Row of the cursor, counted from zero, when the introducer began.
    pub start_row: u16,
    /// Column of the cursor, counted from zero, when the introducer began.
    pub start_col: u16,
    /// Declared width in pixels, zero when the payload declares none.
    pub width: u16,
    /// Declared height in pixels, zero when the payload declares none.
    pub height: u16,
    /// The bytes between the introducer and the terminator.
    pub data: Vec<u8>,
}

/// The mathematical value of a [`SixelRegion`].
pub struct RegionView {
    pub start_row: u16,
    pub start_col: u16,
    pub width: u16,
    pub height: u16,
    pub data: Seq<u8>,
}

impl View for SixelRegion {
    type V = RegionView;

    open spec fn view(&self) -> RegionView {
        RegionView {
            start_row: self.start_row,
            start_col: self.start_col,
            width: self.width,
            height: self.height,
            data: self.data@,
        }
    }
}

impl Clone for SixelRegion {
    fn clone(&self) -> (copy: SixelRegion)
        ensures
            copy@ == self@,
    {
        SixelRegion {
            start_row: self.start_row,
            start_col: self.start_col,
            width: self.width,
            height: self.height,
            data: slice_to_vec(self.data.as_slice()),
        }
    }
}

/// The values of a list of regions, in order.
pub open spec fn region_views(regions: Seq<SixelRegion>) -> Seq<RegionView> {
    Seq::new(regions.len(), |i: int| regions[i]@)
}

/// The region that a finished block yields: it starts where the cursor was
/// when the introducer began and has the size that its payload declares.
pub open spec fn region_of(origin: (u16, u16), data: Seq<u8>) -> RegionView {
    RegionView {
        start_row: origin.0,
        start_col: origin.1,
        width: raster_dims(data).0,
        height: raster_dims(data).1,
        data,
    }
}

/// Where the scanner stands in the grammar.
#[derive(Clone, Copy, Debug, PartialEq, Eq, Structural)]
pub enum Phase {
    /// Outside any block, looking for an introducer.
    Idle,
    /// `ESC` seen outside a block.
    Escape,
    /// `ESC P` seen outside a block.
    Introducer,
    /// The introducer is complete and no payload byte has arrived yet; a
    /// raster-attribute clause may follow.
    AwaitingRaster,
    /// Inside the payload.
    InPayload,
    /// Inside a block with an `ESC` held back, which is either the start of
    /// the terminator or part of the payload.
    PayloadEscape,
}

/// The scanner's state as a mathematical value.
pub struct ScanState {
    pub phase: Phase,
    /// The cursor position sampled at the `ESC` of the introducer. `(0, 0)`
    /// while idle.
    pub origin: (u16, u16),
    /// The payload gathered so far. Empty outside a block.
    pub data: Seq<u8>,
}

impl ScanState {
    /// The state before any byte has been seen.
    pub open spec fn initial() -> ScanState {
        ScanState { phase: Phase::Idle, origin: (0, 0), data: Seq::empty() }
    }

    /// Whether the scanner is outside a block, where an `ESC` may begin an
    /// introducer.
    pub open spec fn outside_block(self) -> bool {
        self.phase == Phase::Idle || self.phase == Phase::Escape || self.phase
            == Phase::Introducer
    }

    /// Whether the cursor position matters for the next byte: only an `ESC`
    /// seen outside a block samples it.
    pub open spec fn samples_cursor(self, byte: u8) -> bool {
        byte == ESC && self.outside_block()
    }
}

/// The state after one more byte. `cursor` is the cursor position that the
/// output before this byte has established.
pub open spec fn advance(st: ScanState, byte: u8, cursor: (u16, u16)) -> ScanState {
    match st.phase {
        Phase::Idle | Phase::Escape | Phase::Introducer => {
            if byte == ESC {
                ScanState { phase: Phase::Escape, origin: cursor, data: Seq::empty() }
            } else if st.phase == Phase::Escape && byte == DCS {
                ScanState { phase: Phase::Introducer, origin: st.origin, data: Seq::empty() }
            } else if st.phase == Phase::Introducer && byte == SIXEL_MODE {
                ScanState { phase: Phase::AwaitingRaster, origin: st.origin, data: Seq::empty() }
            } else {
                ScanState::initial()
            }
        },
        Phase::AwaitingRaster | Phase::InPayload => {
            if byte == ESC {
                ScanState { phase: Phase::PayloadEscape, origin: st.origin, data: st.data }
            } else {
                ScanState { phase: Phase::InPayload, origin: st.origin, data: st.data.push(byte) }
            }
        },
        Phase::PayloadEscape => {
            if byte == BACKSLASH {
                ScanState::initial()
            } else if byte == ESC {
                ScanState { phase: Phase::PayloadEscape, origin: st.origin, data: st.data.push(ESC) }
            } else {
                ScanState {
                    phase: Phase::InPayload,
                    origin: st.origin,
                    data: st.data.push(ESC).push(byte),
                }
            }
        },
    }
}

/// The region that one more byte completes, if it completes one: the byte
/// must be the `\` of a terminator.
pub open spec fn completed(st: ScanState, byte: u8) -> Option<RegionView> {
    if st.phase == Phase::PayloadEscape && byte == BACKSLASH {
        Some(region_of(st.origin, st.data))
    } else {
        None
    }
}

/// The state after a run of bytes. `cursors[i]` is the cursor position that
/// the output before `bytes[i]` has established.
pub open spec fn run(st: ScanState, bytes: Seq<u8>, cursors: Seq<(u16, u16)>) -> ScanState
    recommends
        cursors.len() == bytes.len(),
    decreases bytes.len(),
{
    if bytes.len() == 0 {
        st
    } else {
        advance(run(st, bytes.drop_last(), cursors.drop_last()), bytes.last(), cursors.last())
    }
}

/// The regions completed during a run of bytes, in the order in which their
/// terminators arrive.
pub open spec fn regions_found(
    st: ScanState,
    bytes: Seq<u8>,
    cursors: Seq<(u16, u16)>,
) -> Seq<RegionView>
    recommends
        cursors.len() == bytes.len(),
    decreases bytes.len(),
{
    if bytes.len() == 0 {
        Seq::empty()
    } else {
        let earlier = regions_found(st, bytes.drop_last(), cursors.drop_last());
        match completed(run(st, bytes.drop_last(), cursors.drop_last()), bytes.last()) {
            Some(region) => earlier.push(region),
            None => earlier,
        }
    }
}

/// The streaming scanner.
#[derive(Debug)]
pub struct SixelScanner {
    phase: Phase,
    origin: (u16, u16),
    data: Vec<u8>,
}

impl View for SixelScanner {
    type V = ScanState;

    closed spec fn view(&self) -> ScanState {
        ScanState { phase: self.phase, origin: self.origin, data: self.data@ }
    }
}

impl SixelScanner {
    /// A scanner that has seen no byte.
    pub fn new() -> (s: SixelScanner)
        ensures
            s@ == ScanState::initial(),
    {
        SixelScanner { phase: Phase::Idle, origin: (0, 0), data: Vec::new() }
    }

    /// Where the scanner stands.
    pub fn phase(&self) -> (p: Phase)
        ensures
            p == self@.phase,
    {
        self.phase
    }

    /// Whether `step` will read the cursor position for this byte. For every
    /// other byte the position handed to `step` is ignored.
    pub fn samples_cursor(&self, byte: u8) -> (r: bool)
        ensures
            r == self@.samples_cursor(byte),
    {
        byte == ESC && (self.phase == Phase::Idle || self.phase == Phase::Escape || self.phase
            == Phase::Introducer)
    }

    /// Consumes one byte. `cursor` is the cursor position established by
    /// the output that came before the byte. Returns the region that the
    /// byte completes, if any.
    pub fn step(&mut self, byte: u8, cursor: (u16, u16)) -> (found: Option<SixelRegion>)
        ensures
            final(self)@ == advance(old(self)@, byte, cursor),
            match found {
                Some(region) => completed(old(self)@, byte) == Some(region@),
                None => completed(old(self)@, byte) is None,
            },
    {
        match self.phase {
            Phase::Idle | Phase::Escape | Phase::Introducer => {
                if byte == ESC {
                    self.phase = Phase::Escape;
                    self.origin = cursor;
                    self.data.clear();
                } else if self.phase == Phase::Escape && byte == DCS {
                    self.phase = Phase::Introducer;
                    self.data.clear();
                } else if self.phase == Phase::Introducer && byte == SIXEL_MODE {
                    self.phase = Phase::AwaitingRaster;
                    self.data.clear();
                } else {
                    self.phase = Phase::Idle;
                    self.origin = (0, 0);
                    self.data.clear();
                }
                None
            },
            Phase::AwaitingRaster | Phase::InPayload => {
                if byte == ESC {
                    self.phase = Phase::PayloadEscape;
                } else {
                    self.phase = Phase::InPayload;
                    self.data.push(byte);
                }
                None
            },
            Phase::PayloadEscape => {
                if byte == BACKSLASH {
                    let mut data: Vec<u8> = Vec::new();
                    std::mem::swap(&mut self.data, &mut data);
                    let origin = self.origin;
                    self.phase = Phase::Idle;
                    self.origin = (0, 0);
                    let dims = parse_raster(data.as_slice());
                    Some(
                        SixelRegion {
                            start_row: origin.0,
                            start_col: origin.1,
                            width: dims.0,
                            height: dims.1,
                            data,
                        },
                    )
                } else if byte == ESC {
                    self.data.push(ESC);
                    None
                } else {
                    self.phase = Phase::InPayload;
                    self.data.push(ESC);
                    self.data.push(byte);
                    None
                }
            },
        }
    }
}

/// A byte that does not sample the cursor moves the scanner the same way
/// whatever position is handed over.
pub proof fn lemma_cursor_ignored(st: ScanState, byte: u8, c1: (u16, u16), c2: (u16, u16))
    requires
        !st.samples_cursor(byte),
    ensures
        advance(st, byte, c1) == advance(st, byte, c2),
{
}

/// Scanning a stream in two parts gives what scanning it whole gives: the
/// second part starts from the state that the first part left, and the
/// regions of the two parts follow one another.
pub proof fn lemma_run_concat(
    st: ScanState,
    a: Seq<u8>,
    ca: Seq<(u16, u16)>,
    b: Seq<u8>,
    cb: Seq<(u16, u16)>,
)
    requires
        ca.len() == a.len(),
        cb.len() == b.len(),
    ensures
        run(st, a + b, ca + cb) == run(run(st, a, ca), b, cb),
        regions_found(st, a + b, ca + cb) == regions_found(st, a, ca) + regions_found(
            run(st, a, ca),
            b,
            cb,
        ),
    decreases b.len(),
{
    if b.len() == 0 {
        assert(a + b =~= a);
        assert(ca + cb =~= ca);
        assert(regions_found(st, a, ca) + Seq::<RegionView>::empty() =~= regions_found(st, a, ca));
    } else {
        lemma_run_concat(st, a, ca, b.drop_last(), cb.drop_last());
        assert((a + b).drop_last() =~= a + b.drop_last());
        assert((ca + cb).drop_last() =~= ca + cb.drop_last());
        assert((a + b).last() == b.last());
        assert((ca + cb).last() == cb.last());
        let mid = run(st, a, ca);
        let first = regions_found(st, a, ca);
        let second = regions_found(mid, b.drop_last(), cb.drop_last());
        match completed(run(mid, b.drop_last(), cb.drop_last()), b.last()) {
            Some(region) => {
                assert((first + second).push(region) =~= first + second.push(region));
            },
            None => {},
        }
    }
}

/// A payload holds no terminator: nowhere in it does `\` follow `ESC`.
pub open spec fn no_terminator(payload: Seq<u8>) -> bool {
    forall|i: int|
        0 <= i < payload.len() - 1 ==> !(#[trigger] payload[i] == ESC && payload[i + 1]
            == BACKSLASH)
}

/// A whole block: the introducer, a payload, the terminator.
pub open spec fn block(payload: Seq<u8>) -> Seq<u8> {
    seq![ESC, DCS, SIXEL_MODE] + payload + seq![ESC, BACKSLASH]
}

/// The state inside a block after the payload bytes `seen`: a trailing
/// `ESC` is held back, everything else has been gathered.
pub open spec fn inside_block(origin: (u16, u16), seen: Seq<u8>) -> ScanState {
    if seen.len() == 0 {
        ScanState { phase: Phase::AwaitingRaster, origin, data: Seq::empty() }
    } else if seen.last() == ESC {
        ScanState { phase: Phase::PayloadEscape, origin, data: seen.drop_last() }
    } else {
        ScanState { phase: Phase::InPayload, origin, data: seen }
    }
}

/// Inside a block, payload bytes without a terminator are gathered and
/// complete no region, wherever the cursor is said to be.
pub proof fn lemma_payload_gathered(
    origin: (u16, u16),
    payload: Seq<u8>,
    cursors: Seq<(u16, u16)>,
)
    requires
        no_terminator(payload),
        cursors.len() == payload.len(),
    ensures
        run(inside_block(origin, Seq::empty()), payload, cursors) == inside_block(origin, payload),
        regions_found(inside_block(origin, Seq::empty()), payload, cursors) == Seq::<
            RegionView,
        >::empty(),
    decreases payload.len(),
{
    if payload.len() > 0 {
        let init = payload.drop_last();
        assert forall|i: int| 0 <= i < init.len() - 1 implies !(#[trigger] init[i] == ESC
            && init[i + 1] == BACKSLASH) by {
            assert(init[i] == payload[i]);
            assert(init[i + 1] == payload[i + 1]);
        }
        lemma_payload_gathered(origin, init, cursors.drop_last());
        let before = inside_block(origin, init);
        let byte = payload.last();
        if init.len() > 0 && init.last() == ESC {
            assert(payload[init.len() - 1] == ESC);
            assert(byte != BACKSLASH);
            assert(init.drop_last().push(ESC) =~= init);
            if byte != ESC {
                assert(init.push(byte) =~= payload);
            }
        } else {
            if byte != ESC {
                assert(init.push(byte) =~= payload);
            }
        }
        assert(advance(before, byte, cursors.last()).data =~= inside_block(origin, payload).data);
    }
}

/// A whole block met outside any block yields exactly one region and leaves
/// the scanner idle. The region starts at the cursor position that belongs
/// to the `ESC` of the introducer, holds the payload, and has the size that
/// the payload declares.
pub proof fn lemma_block_yields_region(
    st: ScanState,
    payload: Seq<u8>,
    cursors: Seq<(u16, u16)>,
)
    requires
        st.outside_block(),
        no_terminator(payload),
        cursors.len() == block(payload).len(),
    ensures
        run(st, block(payload), cursors) == ScanState::initial(),
        regions_found(st, block(payload), cursors) == seq![region_of(cursors[0], payload)],
{
    let intro = seq![ESC, DCS, SIXEL_MODE];
    let term = seq![ESC, BACKSLASH];
    let n = payload.len() as int;
    let c_intro = cursors.subrange(0, 3);
    let c_payload = cursors.subrange(3, 3 + n);
    let c_term = cursors.subrange(3 + n, 5 + n);
    let origin = cursors[0];
    assert(cursors =~= c_intro + c_payload + c_term);

    // The introducer.
    reveal_with_fuel(run, 4);
    reveal_with_fuel(regions_found, 4);
    assert(intro.drop_last() =~= seq![ESC, DCS]);
    assert(intro.drop_last().drop_last() =~= seq![ESC]);
    assert(intro.drop_last().drop_last().drop_last() =~= Seq::<u8>::empty());
    assert(c_intro.drop_last().drop_last().last() == origin);
    let entered = inside_block(origin, Seq::empty());
    assert(run(st, intro, c_intro) == entered);
    assert(regions_found(st, intro, c_intro) =~= Seq::<RegionView>::empty());

    // The payload.
    lemma_payload_gathered(origin, payload, c_payload);
    lemma_run_concat(st, intro, c_intro, payload, c_payload);
    let gathered = inside_block(origin, payload);
    assert(run(st, intro + payload, c_intro + c_payload) == gathered);
    assert(regions_found(st, intro + payload, c_intro + c_payload) =~= Seq::<
        RegionView,
    >::empty());

    // The terminator.
    assert(term.drop_last() =~= seq![ESC]);
    assert(term.drop_last().drop_last() =~= Seq::<u8>::empty());
    let held = ScanState { phase: Phase::PayloadEscape, origin, data: payload };
    if payload.len() > 0 && payload.last() == ESC {
        assert(payload.drop_last().push(ESC) =~= payload);
    }
    assert(advance(gathered, ESC, c_term[0]).data =~= payload);
    assert(advance(gathered, ESC, c_term[0]) == held);
    assert(run(gathered, term, c_term) == ScanState::initial());
    assert(regions_found(gathered, term, c_term) =~= seq![region_of(origin, payload)]);
    lemma_run_concat(st, intro + payload, c_intro + c_payload, term, c_term);
}

} // verus!
