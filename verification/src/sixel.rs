//! Snapshots of the graphics regions on a screen, and the checks that tests
//! make on where those regions lie.

use vstd::prelude::*;
use vstd::slice::slice_to_vec;
use crate::error::TermTestError;
use crate::extractor::{region_views, RegionView, SixelRegion};
use crate::geometry::Rectangle;
use crate::screen::ScreenState;

verus! {

/// One graphics block as tests see it.
#[derive(Debug, PartialEq, Eq)]
pub struct SixelSequence {
    /// The payload bytes of the block.
    pub raw: Vec<u8>,
    /// The cursor position `(row, col)` at which the block began.
    pub position: (u16, u16),
    /// The bounding rectangle as `(row, col, width, height)`.
    pub bounds: (u16, u16, u16, u16),
}

/// The mathematical value of a [`SixelSequence`].
#[verifier::ext_equal]
pub struct SequenceView {
    pub raw: Seq<u8>,
    pub position: (u16, u16),
    pub bounds: (u16, u16, u16, u16),
}

impl View for SixelSequence {
    type V = SequenceView;

    open spec fn view(&self) -> SequenceView {
        SequenceView { raw: self.raw@, position: self.position, bounds: self.bounds }
    }
}

impl Clone for SixelSequence {
    fn clone(&self) -> (copy: SixelSequence)
        ensures
            copy@ == self@,
    {
        SixelSequence {
            raw: slice_to_vec(self.raw.as_slice()),
            position: (self.position.0, self.position.1),
            bounds: (self.bounds.0, self.bounds.1, self.bounds.2, self.bounds.3),
        }
    }
}

impl SequenceView {
    /// The bounds as a rectangle.
    pub open spec fn rect(self) -> Rectangle {
        Rectangle::of_tuple(self.bounds)
    }

    /// The bounds lie fully inside `area`.
    pub open spec fn within(self, area: (u16, u16, u16, u16)) -> bool {
        Rectangle::of_tuple(area).encloses(self.rect())
    }
}

/// The values of a list of sequences, in order.
pub open spec fn sequence_views(sequences: Seq<SixelSequence>) -> Seq<SequenceView> {
    Seq::new(sequences.len(), |i: int| sequences[i]@)
}

/// The values behind a list of borrowed sequences, in order.
pub open spec fn borrowed_views(sequences: Seq<&SixelSequence>) -> Seq<SequenceView> {
    Seq::new(sequences.len(), |i: int| sequences[i]@)
}

/// The sequence that stands for a region: the same payload and position,
/// with bounds that start at the position and have the declared size.
pub open spec fn sequence_of(region: RegionView) -> SequenceView {
    SequenceView {
        raw: region.data,
        position: (region.start_row, region.start_col),
        bounds: (region.start_row, region.start_col, region.width, region.height),
    }
}

/// The test "lies inside `area`", as a predicate on sequences.
pub open spec fn inside(area: (u16, u16, u16, u16)) -> spec_fn(SequenceView) -> bool {
    |s: SequenceView| s.within(area)
}

/// The test "does not lie inside `area`", as a predicate on sequences.
pub open spec fn outside(area: (u16, u16, u16, u16)) -> spec_fn(SequenceView) -> bool {
    |s: SequenceView| !s.within(area)
}

/// The positions of the sequences that do not lie inside `area`, in order.
pub open spec fn positions_outside(sequences: Seq<SequenceView>, area: (u16, u16, u16, u16)) -> Seq<
    (u16, u16),
> {
    sequences.filter(outside(area)).map_values(|s: SequenceView| s.position)
}

/// Two snapshots differ when their lists of sequences are not equal, element
/// by element and in order.
pub open spec fn snapshots_differ(a: Seq<SequenceView>, b: Seq<SequenceView>) -> bool {
    a != b
}

impl SixelSequence {
    pub fn new(raw: Vec<u8>, position: (u16, u16), bounds: (u16, u16, u16, u16)) -> (s:
        SixelSequence)
        ensures
            s@ == (SequenceView { raw: raw@, position, bounds }),
    {
        SixelSequence { raw, position, bounds }
    }

    /// The bounds as a rectangle.
    pub fn bounds_rectangle(&self) -> (r: Rectangle)
        ensures
            r == self@.rect(),
    {
        Rectangle::from_tuple(self.bounds)
    }

    /// Whether the bounds lie fully inside `area`, given as
    /// `(row, col, width, height)`.
    pub fn is_within(&self, area: (u16, u16, u16, u16)) -> (r: bool)
        ensures
            r == self@.within(area),
    {
        Rectangle::from_tuple(area).contains(&Rectangle::from_tuple(self.bounds))
    }

    /// Whether the bounds share a point with `area`, given as
    /// `(row, col, width, height)`.
    pub fn overlaps(&self, area: (u16, u16, u16, u16)) -> (r: bool)
        ensures
            r == self@.rect().intersects(Rectangle::of_tuple(area)),
    {
        Rectangle::from_tuple(self.bounds).overlaps(&Rectangle::from_tuple(area))
    }

    /// Whether two sequences have the same payload, position and bounds.
    pub fn same_as(&self, other: &SixelSequence) -> (r: bool)
        ensures
            r == (self@ == other@),
    {
        let same = self.position.0 == other.position.0 && self.position.1 == other.position.1
            && self.bounds.0 == other.bounds.0 && self.bounds.1 == other.bounds.1
            && self.bounds.2 == other.bounds.2 && self.bounds.3 == other.bounds.3
            && bytes_equal(self.raw.as_slice(), other.raw.as_slice());
        proof {
            if same {
                assert(self@ =~~= other@);
            }
        }
        same
    }
}

/// Whether two byte strings are equal.
pub fn bytes_equal(a: &[u8], b: &[u8]) -> (r: bool)
    ensures
        r == (a@ == b@),
{
    if a.len() != b.len() {
        return false;
    }
    let mut i: usize = 0;
    while i < a.len()
        invariant
            i <= a.len(),
            a@.len() == b@.len(),
            forall|k: int| 0 <= k < i ==> a@[k] == b@[k],
        decreases a.len() - i,
    {
        if a[i] != b[i] {
            return false;
        }
        i = i + 1;
    }
    assert(a@ =~= b@);
    true
}

/// Filtering a list that has grown by one element.
proof fn lemma_filter_push(s: Seq<SequenceView>, x: SequenceView, pred: spec_fn(SequenceView) -> bool)
    ensures
        s.push(x).filter(pred) == if pred(x) {
            s.filter(pred).push(x)
        } else {
            s.filter(pred)
        },
{
    reveal(Seq::filter);
    assert(s.push(x).drop_last() =~= s);
}

/// The graphics regions of a screen at one instant.
#[derive(Debug, PartialEq, Eq)]
pub struct SixelCapture {
    sequences: Vec<SixelSequence>,
}

impl View for SixelCapture {
    type V = Seq<SequenceView>;

    closed spec fn view(&self) -> Seq<SequenceView> {
        sequence_views(self.sequences@)
    }
}

impl Clone for SixelCapture {
    fn clone(&self) -> (copy: SixelCapture)
        ensures
            copy@ == self@,
    {
        let mut sequences: Vec<SixelSequence> = Vec::new();
        let mut i: usize = 0;
        while i < self.sequences.len()
            invariant
                i <= self.sequences.len(),
                sequences@.len() == i,
                forall|k: int| 0 <= k < i ==> (#[trigger] sequences@[k])@ == self.sequences@[k]@,
            decreases self.sequences.len() - i,
        {
            sequences.push(self.sequences[i].clone());
            i = i + 1;
        }
        let copy = SixelCapture { sequences };
        assert(copy@ =~= self@);
        copy
    }
}

impl Default for SixelCapture {
    fn default() -> (capture: SixelCapture)
        ensures
            capture@ == Seq::<SequenceView>::empty(),
    {
        SixelCapture::new()
    }
}

impl SixelCapture {
    /// A snapshot without sequences.
    pub fn new() -> (capture: SixelCapture)
        ensures
            capture@ == Seq::<SequenceView>::empty(),
    {
        let capture = SixelCapture { sequences: Vec::new() };
        assert(capture@ =~= Seq::<SequenceView>::empty());
        capture
    }

    /// A snapshot of the given sequences, in their order.
    pub fn from_sequences(sequences: Vec<SixelSequence>) -> (capture: SixelCapture)
        ensures
            capture@ == sequence_views(sequences@),
    {
        SixelCapture { sequences }
    }

    /// A snapshot from raw output and a list of cursor positions. Raw output
    /// alone does not say where the cursor stood when a block began, so this
    /// yields the empty snapshot; use [`SixelCapture::from_screen_state`].
    pub fn from_output(_output: &[u8], _cursor_positions: &[(u16, u16)]) -> (capture: SixelCapture)
        ensures
            capture@ == Seq::<SequenceView>::empty(),
    {
        SixelCapture::new()
    }

    /// A snapshot of the regions that a screen holds now. Later changes of
    /// the screen do not reach the snapshot.
    pub fn from_screen_state(state: &ScreenState) -> (capture: SixelCapture)
        ensures
            capture@ == state.regions().map_values(|r: RegionView| sequence_of(r)),
    {
        let regions = state.sixel_regions();
        let mut sequences: Vec<SixelSequence> = Vec::new();
        let mut i: usize = 0;
        while i < regions.len()
            invariant
                i <= regions.len(),
                sequences@.len() == i,
                forall|k: int| 0 <= k < i ==> (#[trigger] sequences@[k])@ == sequence_of(regions@[k]@),
            decreases regions.len() - i,
        {
            let region = &regions[i];
            sequences.push(
                SixelSequence {
                    raw: slice_to_vec(region.data.as_slice()),
                    position: (region.start_row, region.start_col),
                    bounds: (region.start_row, region.start_col, region.width, region.height),
                },
            );
            i = i + 1;
        }
        let capture = SixelCapture { sequences };
        proof {
            let expected = state.regions().map_values(|r: RegionView| sequence_of(r));
            assert(state.regions() == region_views(regions@));
            assert(capture@ =~= expected);
        }
        capture
    }

    /// The sequences, oldest first.
    pub fn sequences(&self) -> (sequences: &[SixelSequence])
        ensures
            sequence_views(sequences@) == self@,
    {
        self.sequences.as_slice()
    }

    /// Whether the snapshot holds no sequence.
    pub fn is_empty(&self) -> (r: bool)
        ensures
            r == (self@.len() == 0),
    {
        self.sequences.len() == 0
    }

    /// The sequences whose bounds lie fully inside `area`, in order.
    pub fn sequences_in_area(&self, area: (u16, u16, u16, u16)) -> (found: Vec<&SixelSequence>)
        ensures
            borrowed_views(found@) == self@.filter(inside(area)),
    {
        let mut found: Vec<&SixelSequence> = Vec::new();
        let mut i: usize = 0;
        proof {
            reveal(Seq::filter);
            assert(self@.take(0) =~= Seq::<SequenceView>::empty());
            assert(borrowed_views(found@) =~= Seq::<SequenceView>::empty());
        }
        while i < self.sequences.len()
            invariant
                i <= self.sequences.len(),
                borrowed_views(found@) == self@.take(i as int).filter(inside(area)),
            decreases self.sequences.len() - i,
        {
            let ghost earlier = found@;
            proof {
                lemma_filter_push(self@.take(i as int), self@[i as int], inside(area));
                assert(self@.take(i + 1) =~= self@.take(i as int).push(self@[i as int]));
            }
            if self.sequences[i].is_within(area) {
                found.push(&self.sequences[i]);
                proof {
                    assert(borrowed_views(found@) =~= borrowed_views(earlier).push(
                        self@[i as int],
                    ));
                }
            }
            i = i + 1;
        }
        proof {
            assert(self@.take(i as int) =~= self@);
        }
        found
    }

    /// The sequences whose bounds do not lie fully inside `area`, in order.
    pub fn sequences_outside_area(&self, area: (u16, u16, u16, u16)) -> (found: Vec<&SixelSequence>)
        ensures
            borrowed_views(found@) == self@.filter(outside(area)),
    {
        let mut found: Vec<&SixelSequence> = Vec::new();
        let mut i: usize = 0;
        proof {
            reveal(Seq::filter);
            assert(self@.take(0) =~= Seq::<SequenceView>::empty());
            assert(borrowed_views(found@) =~= Seq::<SequenceView>::empty());
        }
        while i < self.sequences.len()
            invariant
                i <= self.sequences.len(),
                borrowed_views(found@) == self@.take(i as int).filter(outside(area)),
            decreases self.sequences.len() - i,
        {
            let ghost earlier = found@;
            proof {
                lemma_filter_push(self@.take(i as int), self@[i as int], outside(area));
                assert(self@.take(i + 1) =~= self@.take(i as int).push(self@[i as int]));
            }
            if !self.sequences[i].is_within(area) {
                found.push(&self.sequences[i]);
                proof {
                    assert(borrowed_views(found@) =~= borrowed_views(earlier).push(
                        self@[i as int],
                    ));
                }
            }
            i = i + 1;
        }
        proof {
            assert(self@.take(i as int) =~= self@);
        }
        found
    }

    /// Checks that every sequence lies fully inside `area`. The error names
    /// the area and the positions of exactly the sequences that do not, in
    /// order. An empty snapshot passes for every area.
    pub fn assert_all_within(&self, area: (u16, u16, u16, u16)) -> (r: Result<(), TermTestError>)
        ensures
            self@.len() == 0 ==> r is Ok,
            r is Ok <==> (forall|i: int| 0 <= i < self@.len() ==> (#[trigger] self@[i]).within(area)),
            r is Ok <==> positions_outside(self@, area).len() == 0,
            r matches Err(e) ==> e matches TermTestError::SixelValidation {
                area: reported,
                positions,
            } && reported == area && positions@ == positions_outside(self@, area),
    {
        let offending = self.sequences_outside_area(area);
        proof {
            lemma_outside_empty_iff_all_within(self@, area);
        }
        if offending.len() == 0 {
            return Ok(());
        }
        let mut positions: Vec<(u16, u16)> = Vec::new();
        let mut i: usize = 0;
        while i < offending.len()
            invariant
                i <= offending.len(),
                positions@.len() == i,
                forall|k: int| 0 <= k < i ==> #[trigger] positions@[k] == offending@[k]@.position,
            decreases offending.len() - i,
        {
            positions.push(offending[i].position);
            i = i + 1;
        }
        proof {
            assert(positions@ =~= positions_outside(self@, area));
        }
        Err(TermTestError::SixelValidation { area, positions })
    }

    /// Whether this snapshot differs from `other` in any sequence: in its
    /// payload, its position or its bounds.
    pub fn differs_from(&self, other: &SixelCapture) -> (r: bool)
        ensures
            r == snapshots_differ(self@, other@),
    {
        if self.sequences.len() != other.sequences.len() {
            assert(self@.len() != other@.len());
            return true;
        }
        let mut i: usize = 0;
        while i < self.sequences.len()
            invariant
                i <= self.sequences.len(),
                self.sequences.len() == other.sequences.len(),
                forall|k: int| 0 <= k < i ==> self@[k] == other@[k],
            decreases self.sequences.len() - i,
        {
            if !self.sequences[i].same_as(&other.sequences[i]) {
                assert(self@[i as int] != other@[i as int]);
                return true;
            }
            i = i + 1;
        }
        assert(self@ =~= other@);
        false
    }
}

/// No sequence lies outside `area` exactly when every sequence lies inside.
pub proof fn lemma_outside_empty_iff_all_within(
    sequences: Seq<SequenceView>,
    area: (u16, u16, u16, u16),
)
    ensures
        positions_outside(sequences, area).len() == sequences.filter(outside(area)).len(),
        sequences.filter(outside(area)).len() == 0 <==> (forall|i: int|
            0 <= i < sequences.len() ==> (#[trigger] sequences[i]).within(area)),
    decreases sequences.len(),
{
    reveal(Seq::filter);
    if sequences.len() > 0 {
        let init = sequences.drop_last();
        lemma_outside_empty_iff_all_within(init, area);
        assert(sequences =~= init.push(sequences.last()));
        lemma_filter_push(init, sequences.last(), outside(area));
        if sequences.filter(outside(area)).len() == 0 {
            assert forall|i: int| 0 <= i < sequences.len() implies (#[trigger] sequences[i]).within(
                area,
            ) by {
                if i < init.len() {
                    assert(init[i] == sequences[i]);
                }
            }
        } else {
            if forall|i: int| 0 <= i < sequences.len() ==> (#[trigger] sequences[i]).within(area) {
                assert forall|i: int| 0 <= i < init.len() implies (#[trigger] init[i]).within(
                    area,
                ) by {
                    assert(init[i] == sequences[i]);
                }
                assert(sequences[sequences.len() - 1].within(area));
                assert(false);
            }
        }
    }
}

/// A snapshot never differs from itself.
pub proof fn lemma_differs_irreflexive(a: Seq<SequenceView>)
    ensures
        !snapshots_differ(a, a),
{
}

/// Whether two snapshots differ does not depend on their order.
pub proof fn lemma_differs_symmetric(a: Seq<SequenceView>, b: Seq<SequenceView>)
    ensures
        snapshots_differ(a, b) == snapshots_differ(b, a),
{
}

/// Every sequence of a snapshot lies either inside an area or outside it:
/// the two selections together have as many members as the snapshot.
pub proof fn lemma_partition(sequences: Seq<SequenceView>, area: (u16, u16, u16, u16))
    ensures
        sequences.filter(inside(area)).len() + sequences.filter(outside(area)).len()
            == sequences.len(),
    decreases sequences.len(),
{
    reveal(Seq::filter);
    if sequences.len() > 0 {
        let init = sequences.drop_last();
        lemma_partition(init, area);
        assert(sequences =~= init.push(sequences.last()));
        lemma_filter_push(init, sequences.last(), inside(area));
        lemma_filter_push(init, sequences.last(), outside(area));
    }
}

} // verus!
