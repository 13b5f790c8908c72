//! Pending replacements of curves in a path, applied in one pass.
use crate::path::{
    lemma_counts_ignore_later, lemma_points_nonnegative_prefix, points_before_spec, segment_wf_spec,
    Path, PathModel, Segment, MAX_POINTS,
};
use crate::scalar::Scalar;
use vstd::prelude::*;

verus! {

/// One pending replacement: the curve whose first point is at `position` in
/// the path, in the segment `segment_id`, gives way to the points
/// `first_point .. one_past_last_point` of the list's buffers.
#[derive(Clone, Copy, Debug, PartialEq, Eq)]
pub struct Replace {
    pub position: u16,
    pub segment_id: u16,
    pub first_point: u16,
    pub one_past_last_point: u16,
}

/// Why a change list was refused.
#[derive(Clone, Copy, Debug, PartialEq, Eq)]
pub enum ChangeError {
    /// A run came with more x than y coordinates, or fewer.
    MismatchedRun,
    /// The buffers, or the path, would hold more points than positions can
    /// address.
    TooManyPoints,
    /// Two replacements start less than three points apart.
    Overlapping,
    /// A replacement names an earlier segment than the one before it.
    SegmentOrder,
    /// A replacement names a segment or a position that the path lacks.
    OutOfRange,
    /// A run is not a chain of curves: it has fewer than four points, or not
    /// one point more than a multiple of three.
    BadRun,
    /// A run does not start and end where the curve that it replaces does.
    Discontinuous,
}

/// Replacement points and the records that say where they go.
pub struct ChangeList<S: Scalar> {
    x: Vec<S>,
    y: Vec<S>,
    changes: Vec<Replace>,
}

/// What a change list holds, as plain sequences.
pub struct ChangeListModel<S: Scalar> {
    pub x: Seq<S>,
    pub y: Seq<S>,
    pub changes: Seq<Replace>,
}

impl<S: Scalar> View for ChangeList<S> {
    type V = ChangeListModel<S>;

    closed spec fn view(&self) -> ChangeListModel<S> {
        ChangeListModel { x: self.x@, y: self.y@, changes: self.changes@ }
    }
}

impl<S: Scalar> ChangeListModel<S> {
    /// The list without points and records.
    pub open spec fn empty() -> Self {
        ChangeListModel { x: Seq::empty(), y: Seq::empty(), changes: Seq::empty() }
    }

    /// The two buffers are equally long, positions in them fit in 16 bits,
    /// and every record names a range within them.
    pub open spec fn wf(self) -> bool {
        &&& self.x.len() == self.y.len()
        &&& self.x.len() <= MAX_POINTS
        &&& forall|i: int|
            0 <= i < self.changes.len() ==> (#[trigger] self.changes[i]).first_point
                <= self.changes[i].one_past_last_point <= self.x.len()
    }

    /// The x coordinates that the record `r` brings.
    pub open spec fn run_x(self, r: Replace) -> Seq<S> {
        self.x.subrange(r.first_point as int, r.one_past_last_point as int)
    }

    /// The y coordinates that the record `r` brings.
    pub open spec fn run_y(self, r: Replace) -> Seq<S> {
        self.y.subrange(r.first_point as int, r.one_past_last_point as int)
    }

    /// The list after a run for the curve at `position` in `segment` was
    /// queued.
    pub open spec fn replace_spec(self, segment: u16, position: u16, new_x: Seq<S>, new_y: Seq<S>) -> Result<
        Self,
        ChangeError,
    > {
        if new_x.len() != new_y.len() {
            Err(ChangeError::MismatchedRun)
        } else if self.x.len() + new_x.len() > MAX_POINTS {
            Err(ChangeError::TooManyPoints)
        } else {
            Ok(
                ChangeListModel {
                    x: self.x + new_x,
                    y: self.y + new_y,
                    changes: self.changes.push(
                        Replace {
                            position,
                            segment_id: segment,
                            first_point: self.x.len() as u16,
                            one_past_last_point: (self.x.len() + new_x.len()) as u16,
                        },
                    ),
                },
            )
        }
    }

    /// What is wrong with the record at index `k` of `sorted`, held against
    /// the path as the records before it have left it, `offset` points
    /// longer than it was. The first of these that holds is reported:
    /// the record starts less than three points after the one before it; it
    /// names an earlier segment; it names a segment or a curve that the path
    /// lacks; its run is no chain of curves; its run starts or ends
    /// elsewhere than the curve it replaces; the path would grow too long.
    pub open spec fn fault_spec(self, sorted: Seq<Replace>, k: int, path: PathModel<S>, offset: int) -> Option<
        ChangeError,
    > {
        let r = sorted[k];
        let count = r.one_past_last_point - r.first_point;
        let at = r.position + offset;
        if k > 0 && sorted[k - 1].position + 3 > r.position {
            Some(ChangeError::Overlapping)
        } else if k > 0 && sorted[k - 1].segment_id > r.segment_id {
            Some(ChangeError::SegmentOrder)
        } else if r.segment_id >= path.segments.len() || at + 3 >= path.x.len() {
            Some(ChangeError::OutOfRange)
        } else if count < 4 || (count - 4) % 3 != 0 {
            Some(ChangeError::BadRun)
        } else if !(path.x[at].eq_spec(self.run_x(r)[0]) && path.y[at].eq_spec(self.run_y(r)[0])
            && path.x[at + 3].eq_spec(self.run_x(r)[count - 1]) && path.y[at + 3].eq_spec(
            self.run_y(r)[count - 1],
        )) {
            Some(ChangeError::Discontinuous)
        } else if path.x.len() + count - 4 > MAX_POINTS {
            Some(ChangeError::TooManyPoints)
        } else {
            None
        }
    }

    /// The path after the run of `r` has taken the place of the four points
    /// from `r.position + offset` on, and the segment of `r` has grown by
    /// the points that came in addition.
    pub open spec fn step_spec(self, r: Replace, path: PathModel<S>, offset: int) -> PathModel<S> {
        let count = r.one_past_last_point - r.first_point;
        let at = r.position + offset;
        PathModel {
            segments: path.segments.update(
                r.segment_id as int,
                Segment { length: (path.segments[r.segment_id as int].length + count - 4) as u16 },
            ),
            x: path.x.subrange(0, at) + self.run_x(r) + path.x.subrange(at + 4, path.x.len() as int),
            y: path.y.subrange(0, at) + self.run_y(r) + path.y.subrange(at + 4, path.y.len() as int),
        }
    }

    /// The path after the records of `sorted` from index `k` on have been
    /// spliced in, one after the other, or the fault of the first record
    /// that has one.
    pub open spec fn apply_from_spec(self, sorted: Seq<Replace>, k: int, path: PathModel<S>, offset: int) -> Result<
        PathModel<S>,
        ChangeError,
    >
        decreases sorted.len() - k,
    {
        if k < 0 || k >= sorted.len() {
            Ok(path)
        } else {
            match self.fault_spec(sorted, k, path, offset) {
                Some(e) => Err(e),
                None => self.apply_from_spec(
                    sorted,
                    k + 1,
                    self.step_spec(sorted[k], path, offset),
                    offset + (sorted[k].one_past_last_point - sorted[k].first_point) - 4,
                ),
            }
        }
    }

    /// The path after the whole list has been applied: the records are taken
    /// in the order of their positions, and each run is spliced in where its
    /// curve has moved to.
    pub open spec fn apply_spec(self, path: PathModel<S>) -> Result<PathModel<S>, ChangeError> {
        self.apply_from_spec(sorted_spec(self.changes), 0, path, 0)
    }
}

/// Where a record with the given position goes into `sorted`: behind the
/// last record whose position is not above it.
pub open spec fn slot_spec(sorted: Seq<Replace>, position: u16) -> int
    decreases sorted.len(),
{
    if sorted.len() == 0 {
        0
    } else if sorted.last().position <= position {
        sorted.len() as int
    } else {
        slot_spec(sorted.drop_last(), position)
    }
}

/// The first `k` records, ordered by position; records with the same
/// position keep their order.
pub open spec fn sorted_prefix_spec(records: Seq<Replace>, k: int) -> Seq<Replace>
    decreases k,
{
    if k <= 0 {
        Seq::empty()
    } else {
        let sorted = sorted_prefix_spec(records, k - 1);
        sorted.insert(slot_spec(sorted, records[k - 1].position), records[k - 1])
    }
}

/// The records ordered by position.
pub open spec fn sorted_spec(records: Seq<Replace>) -> Seq<Replace> {
    sorted_prefix_spec(records, records.len() as int)
}

/// Whether the positions never fall from one record to the next.
pub open spec fn ordered_spec(records: Seq<Replace>) -> bool {
    forall|i: int, j: int| 0 <= i < j < records.len() ==> records[i].position <= records[j].position
}

/// A slot lies within the sequence; what stands before it is not above the
/// position, and in an ordered sequence what stands from it on is above.
pub proof fn lemma_slot(sorted: Seq<Replace>, position: u16)
    ensures
        0 <= slot_spec(sorted, position) <= sorted.len(),
        ordered_spec(sorted) ==> forall|i: int|
            0 <= i < slot_spec(sorted, position) ==> sorted[i].position <= position,
        forall|i: int| slot_spec(sorted, position) <= i < sorted.len() ==> sorted[i].position > position,
    decreases sorted.len(),
{
    if sorted.len() > 0 {
        let n = sorted.len() as int;
        let rest = sorted.drop_last();
        if sorted.last().position > position {
            lemma_slot(rest, position);
            assert forall|i: int| slot_spec(sorted, position) <= i < n implies sorted[i].position
                > position by {
                if i < n - 1 {
                    assert(sorted[i] == rest[i]);
                }
            }
            if ordered_spec(sorted) {
                assert forall|i: int, j: int| 0 <= i < j < rest.len() implies rest[i].position
                    <= rest[j].position by {
                    assert(rest[i] == sorted[i] && rest[j] == sorted[j]);
                }
                assert forall|i: int| 0 <= i < slot_spec(sorted, position) implies sorted[i].position
                    <= position by {
                    assert(sorted[i] == rest[i]);
                }
            }
        } else {
            if ordered_spec(sorted) {
                assert forall|i: int| 0 <= i < n implies sorted[i].position <= position by {
                    if i < n - 1 {
                        assert(sorted[i].position <= sorted[n - 1].position);
                    }
                }
            }
        }
    }
}

/// Sorting keeps every record, and leaves the positions in rising order.
pub proof fn lemma_sorted_prefix(records: Seq<Replace>, k: int)
    requires
        0 <= k <= records.len(),
    ensures
        sorted_prefix_spec(records, k).len() == k,
        ordered_spec(sorted_prefix_spec(records, k)),
        sorted_prefix_spec(records, k).to_multiset() == records.take(k).to_multiset(),
    decreases k,
{
    broadcast use vstd::seq_lib::group_to_multiset_ensures;

    if k > 0 {
        lemma_sorted_prefix(records, k - 1);
        let before = sorted_prefix_spec(records, k - 1);
        let r = records[k - 1];
        let at = slot_spec(before, r.position);
        lemma_slot(before, r.position);
        let after = before.insert(at, r);
        assert forall|i: int, j: int| 0 <= i < j < after.len() implies after[i].position
            <= after[j].position by {
            if i < at && j > at {
                assert(after[i] == before[i]);
                assert(after[j] == before[j - 1]);
            } else if i < at && j < at {
                assert(after[i] == before[i]);
                assert(after[j] == before[j]);
            } else if i > at {
                assert(after[i] == before[i - 1]);
                assert(after[j] == before[j - 1]);
            }
        }
        assert(records.take(k) =~= records.take(k - 1).push(r));
        vstd::seq_lib::to_multiset_insert(before, at, r);
    } else {
        assert(records.take(0) =~= Seq::<Replace>::empty());
    }
}

/// Every record of the sorted sequence is one of the records that were
/// sorted.
pub proof fn lemma_sorted_keeps_records(records: Seq<Replace>)
    ensures
        sorted_spec(records).len() == records.len(),
        forall|i: int|
            0 <= i < records.len() ==> records.contains(#[trigger] sorted_spec(records)[i]),
{
    broadcast use vstd::seq_lib::group_to_multiset_ensures;

    let sorted = sorted_spec(records);
    lemma_sorted_prefix(records, records.len() as int);
    assert(records.take(records.len() as int) =~= records);
    assert forall|i: int| 0 <= i < records.len() implies records.contains(#[trigger] sorted[i]) by {
        assert(sorted.contains(sorted[i]));
        assert(sorted.to_multiset().count(sorted[i]) > 0);
        assert(records.to_multiset().count(sorted[i]) > 0);
    }
}

/// Appends the elements `from .. to` of `src` to `out`.
pub fn copy_range<T: Copy>(src: &[T], from: usize, to: usize, out: &mut Vec<T>)
    requires
        from <= to <= src@.len(),
    ensures
        final(out)@ == old(out)@ + src@.subrange(from as int, to as int),
{
    let mut i: usize = from;
    while i < to
        invariant
            from <= i <= to <= src@.len(),
            out@ == old(out)@ + src@.subrange(from as int, i as int),
        decreases to - i,
    {
        out.push(src[i]);
        assert(out@ =~= old(out)@ + src@.subrange(from as int, i + 1));
        i = i + 1;
    }
    assert(out@ =~= old(out)@ + src@.subrange(from as int, to as int));
}

/// The records ordered by position; records with the same position keep
/// their order.
pub fn sort_by_position(records: &Vec<Replace>) -> (r: Vec<Replace>)
    ensures
        r@ == sorted_spec(records@),
{
    let mut out: Vec<Replace> = Vec::new();
    let mut k: usize = 0;
    while k < records.len()
        invariant
            0 <= k <= records.len(),
            out@ == sorted_prefix_spec(records@, k as int),
        decreases records.len() - k,
    {
        let r = records[k];
        let mut j: usize = out.len();
        assert(out@.take(j as int) =~= out@);
        while j > 0 && out[j - 1].position > r.position
            invariant
                0 <= j <= out.len(),
                slot_spec(out@, r.position) == slot_spec(out@.take(j as int), r.position),
            decreases j,
        {
            assert(out@.take(j as int).drop_last() =~= out@.take(j - 1));
            j = j - 1;
        }
        out.insert(j, r);
        k = k + 1;
    }
    out
}

impl<S: Scalar> ChangeList<S> {
    /// An empty list.
    pub fn new() -> (r: Self)
        ensures
            r@ == ChangeListModel::<S>::empty(),
            r@.wf(),
    {
        ChangeList { x: Vec::new(), y: Vec::new(), changes: Vec::new() }
    }

    /// The number of pending replacements.
    pub fn len(&self) -> (r: usize)
        ensures
            r == self@.changes.len(),
    {
        self.changes.len()
    }

    /// Whether no replacement is pending.
    pub fn is_empty(&self) -> (r: bool)
        ensures
            r == (self@.changes.len() == 0),
    {
        self.changes.len() == 0
    }

    /// Forgets every pending replacement, and keeps the buffers' memory.
    pub fn clear(&mut self)
        ensures
            final(self)@ == ChangeListModel::<S>::empty(),
            final(self)@.wf(),
    {
        self.x.clear();
        self.y.clear();
        self.changes.clear();
    }

    /// Queues the points `new_x`, `new_y` as the replacement of the curve
    /// whose first point is at `position` of the path, in the segment
    /// `segment`. Nothing is queued where the two runs differ in length or
    /// the buffers would outgrow 16-bit positions.
    pub fn replace(&mut self, segment: u16, position: u16, new_x: &[S], new_y: &[S]) -> (r: Result<
        (),
        ChangeError,
    >)
        requires
            old(self)@.wf(),
        ensures
            match old(self)@.replace_spec(segment, position, new_x@, new_y@) {
                Ok(list) => r is Ok && final(self)@ == list,
                Err(e) => r == Err::<(), ChangeError>(e) && final(self)@ == old(self)@,
            },
            final(self)@.wf(),
    {
        if new_x.len() != new_y.len() {
            return Err(ChangeError::MismatchedRun);
        }
        let start = self.x.len();
        if new_x.len() > MAX_POINTS - start {
            return Err(ChangeError::TooManyPoints);
        }
        copy_range(new_x, 0, new_x.len(), &mut self.x);
        copy_range(new_y, 0, new_y.len(), &mut self.y);
        assert(new_x@.subrange(0, new_x@.len() as int) =~= new_x@);
        assert(new_y@.subrange(0, new_y@.len() as int) =~= new_y@);
        self.changes.push(
            Replace {
                position,
                segment_id: segment,
                first_point: start as u16,
                one_past_last_point: (start + new_x.len()) as u16,
            },
        );
        Ok(())
    }

    /// What is wrong with the record at index `k` of `sorted`, held against
    /// the path that the points `xs`, `ys` and the segments make up.
    pub fn fault(
        &self,
        sorted: &Vec<Replace>,
        k: usize,
        segments: &Vec<Segment>,
        xs: &Vec<S>,
        ys: &Vec<S>,
        offset: usize,
    ) -> (r: Option<ChangeError>)
        requires
            self@.wf(),
            k < sorted@.len(),
            forall|i: int|
                0 <= i < sorted@.len() ==> (#[trigger] sorted@[i]).first_point
                    <= sorted@[i].one_past_last_point <= self@.x.len(),
            xs@.len() == ys@.len(),
            xs@.len() <= MAX_POINTS,
            offset <= xs@.len(),
        ensures
            r == self@.fault_spec(
                sorted@,
                k as int,
                PathModel { segments: segments@, x: xs@, y: ys@ },
                offset as int,
            ),
    {
        let r = sorted[k];
        let first = r.first_point as usize;
        let end = r.one_past_last_point as usize;
        let count = end - first;
        let at = r.position as usize + offset;
        if k > 0 && sorted[k - 1].position as usize + 3 > r.position as usize {
            Some(ChangeError::Overlapping)
        } else if k > 0 && sorted[k - 1].segment_id > r.segment_id {
            Some(ChangeError::SegmentOrder)
        } else if r.segment_id as usize >= segments.len() || at + 3 >= xs.len() {
            Some(ChangeError::OutOfRange)
        } else if count < 4 || (count - 4) % 3 != 0 {
            Some(ChangeError::BadRun)
        } else if !(xs[at].eq(self.x[first]) && ys[at].eq(self.y[first]) && xs[at + 3].eq(
            self.x[end - 1],
        ) && ys[at + 3].eq(self.y[end - 1])) {
            Some(ChangeError::Discontinuous)
        } else if xs.len() + count - 4 > MAX_POINTS {
            Some(ChangeError::TooManyPoints)
        } else {
            None
        }
    }

    /// Applies every pending replacement to `path` and empties the list.
    ///
    /// The records are taken in the order of their positions. Each run takes
    /// the place of the four points of its curve, the segment that owns the
    /// curve grows by the points that came in addition, and the records
    /// after it are moved along by as much. Where a record has a fault the
    /// path is left as it was.
    pub fn apply(&mut self, path: &mut Path<S>) -> (r: Result<(), ChangeError>)
        requires
            old(self)@.wf(),
            old(path)@.wf(),
        ensures
            final(self)@ == ChangeListModel::<S>::empty(),
            match old(self)@.apply_spec(old(path)@) {
                Ok(patched) => r is Ok && final(path)@ == patched,
                Err(e) => r == Err::<(), ChangeError>(e) && final(path)@ == old(path)@,
            },
            final(path)@.wf(),
    {
        let sorted = sort_by_position(&self.changes);
        let mut xs: Vec<S> = Vec::new();
        let mut ys: Vec<S> = Vec::new();
        let mut segments: Vec<Segment> = Vec::new();
        copy_range(path.x.as_slice(), 0, path.x.len(), &mut xs);
        copy_range(path.y.as_slice(), 0, path.y.len(), &mut ys);
        copy_range(path.segments.as_slice(), 0, path.segments.len(), &mut segments);
        assert(xs@ =~= path.x@);
        assert(ys@ =~= path.y@);
        assert(segments@ =~= path.segments@);
        let ghost list = self@;
        proof {
            lemma_sorted_keeps_records(list.changes);
        }
        let mut offset: usize = 0;
        let mut failed: Option<ChangeError> = None;
        let mut k: usize = 0;
        while k < sorted.len() && failed.is_none()
            invariant
                0 <= k <= sorted.len(),
                list == self@,
                list.wf(),
                sorted@ == sorted_spec(list.changes),
                forall|i: int|
                    0 <= i < sorted.len() ==> (#[trigger] sorted@[i]).first_point
                        <= sorted@[i].one_past_last_point <= list.x.len(),
                offset <= xs.len(),
                (PathModel { segments: segments@, x: xs@, y: ys@ }).wf(),
                failed is None ==> list.apply_from_spec(
                    sorted@,
                    k as int,
                    PathModel { segments: segments@, x: xs@, y: ys@ },
                    offset as int,
                ) == list.apply_spec(old(path)@),
                failed matches Some(e) ==> list.apply_spec(old(path)@) == Err::<
                    PathModel<S>,
                    ChangeError,
                >(e),
            decreases 2 * (sorted.len() - k) + (if failed is None { 1int } else { 0int }),
        {
            match self.fault(&sorted, k, &segments, &xs, &ys, offset) {
                Some(e) => {
                    failed = Some(e);
                },
                None => {
                    let r = sorted[k];
                    let at = r.position as usize + offset;
                    let count = (r.one_past_last_point - r.first_point) as usize;
                    xs = splice(&xs, at, &self.x, r.first_point as usize, r.one_past_last_point as usize);
                    ys = splice(&ys, at, &self.y, r.first_point as usize, r.one_past_last_point as usize);
                    grow(&mut segments, r.segment_id as usize, count - 4);
                    offset = offset + count - 4;
                    k = k + 1;
                },
            }
        }
        self.x.clear();
        self.y.clear();
        self.changes.clear();
        match failed {
            Some(e) => Err(e),
            None => {
                path.x = xs;
                path.y = ys;
                path.segments = segments;
                Ok(())
            },
        }
    }
}

/// The points with the four from `at` on replaced by `run[first .. end]`.
pub fn splice<T: Copy>(points: &Vec<T>, at: usize, run: &Vec<T>, first: usize, end: usize) -> (r: Vec<T>)
    requires
        at + 4 <= points@.len(),
        first <= end <= run@.len(),
    ensures
        r@ == points@.subrange(0, at as int) + run@.subrange(first as int, end as int)
            + points@.subrange(at + 4, points@.len() as int),
{
    let mut next: Vec<T> = Vec::new();
    assert(at + 4 <= points.len());
    copy_range(points.as_slice(), 0, at, &mut next);
    copy_range(run.as_slice(), first, end, &mut next);
    copy_range(points.as_slice(), at + 4, points.len(), &mut next);
    assert(next@ =~= points@.subrange(0, at as int) + run@.subrange(first as int, end as int)
        + points@.subrange(at + 4, points@.len() as int));
    next
}

/// Makes the segment `id` longer by `added` points.
pub fn grow(segments: &mut Vec<Segment>, id: usize, added: usize)
    requires
        id < old(segments)@.len(),
        added % 3 == 0,
        points_before_spec(old(segments)@, old(segments)@.len() as int) + added <= MAX_POINTS,
        forall|i: int| 0 <= i < old(segments)@.len() ==> segment_wf_spec(#[trigger] old(segments)@[i]),
    ensures
        final(segments)@ == old(segments)@.update(
            id as int,
            Segment { length: (old(segments)@[id as int].length + added) as u16 },
        ),
        points_before_spec(final(segments)@, final(segments)@.len() as int) == points_before_spec(
            old(segments)@,
            old(segments)@.len() as int,
        ) + added,
        forall|i: int|
            0 <= i < final(segments)@.len() ==> segment_wf_spec(#[trigger] final(segments)@[i]),
{
    proof {
        lemma_segment_within_total(segments@, id as int);
        assert(segment_wf_spec(segments@[id as int]));
    }
    let grown = Segment { length: (segments[id].length as usize + added) as u16 };
    proof {
        lemma_update_changes_total(segments@, id as int, grown);
    }
    segments.set(id, grown);
}

/// No segment is longer than the whole path.
pub proof fn lemma_segment_within_total(segments: Seq<Segment>, i: int)
    requires
        0 <= i < segments.len(),
    ensures
        segments[i].length <= points_before_spec(segments, segments.len() as int),
    decreases segments.len(),
{
    let n = segments.len() as int;
    if i < n - 1 {
        lemma_segment_within_total(segments.drop_last(), i);
        lemma_counts_ignore_later(segments, segments.drop_last(), n - 1);
    } else {
        lemma_points_nonnegative_prefix(segments, n - 1);
    }
}

/// Replacing one segment changes the number of points by the difference of
/// the two lengths.
pub proof fn lemma_update_changes_total(segments: Seq<Segment>, i: int, segment: Segment)
    requires
        0 <= i < segments.len(),
    ensures
        points_before_spec(segments.update(i, segment), segments.len() as int) == points_before_spec(
            segments,
            segments.len() as int,
        ) - segments[i].length + segment.length,
{
    lemma_update_changes_prefix(segments, i, segment, segments.len() as int);
}

/// Replacing one segment changes the number of points of every prefix that
/// holds it by the difference of the two lengths, and of no other.
pub proof fn lemma_update_changes_prefix(segments: Seq<Segment>, i: int, segment: Segment, k: int)
    requires
        0 <= i < segments.len(),
        0 <= k <= segments.len(),
    ensures
        points_before_spec(segments.update(i, segment), k) == points_before_spec(segments, k) + (if i
            < k {
            segment.length - segments[i].length
        } else {
            0
        }),
    decreases k,
{
    if k > 0 {
        lemma_update_changes_prefix(segments, i, segment, k - 1);
    }
}

/// The points by which the records `k ..` make a path longer: each brings
/// its run and takes four points away.
pub open spec fn growth_spec(sorted: Seq<Replace>, k: int) -> int
    decreases sorted.len() - k,
{
    if k < 0 || k >= sorted.len() {
        0
    } else {
        (sorted[k].one_past_last_point - sorted[k].first_point) - 4 + growth_spec(sorted, k + 1)
    }
}

/// Records that bring seven points or more each make a path longer by three
/// points or more each.
pub proof fn lemma_growth_of_cuts(sorted: Seq<Replace>, k: int)
    requires
        0 <= k <= sorted.len(),
        forall|i: int|
            0 <= i < sorted.len() ==> (#[trigger] sorted[i]).one_past_last_point
                - sorted[i].first_point >= 7,
    ensures
        growth_spec(sorted, k) >= 3 * (sorted.len() - k),
    decreases sorted.len() - k,
{
    if k < sorted.len() {
        lemma_growth_of_cuts(sorted, k + 1);
    }
}

/// A list that can be applied leaves a well formed path well formed, and
/// longer by what its records bring.
pub proof fn lemma_apply_grows<S: Scalar>(
    list: ChangeListModel<S>,
    sorted: Seq<Replace>,
    k: int,
    path: PathModel<S>,
    offset: int,
)
    requires
        0 <= k <= sorted.len(),
        0 <= offset,
        path.wf(),
        list.x.len() == list.y.len(),
        forall|i: int|
            0 <= i < sorted.len() ==> (#[trigger] sorted[i]).first_point
                <= sorted[i].one_past_last_point <= list.x.len(),
    ensures
        list.apply_from_spec(sorted, k, path, offset) matches Ok(next) ==> next.wf() && next.x.len()
            == path.x.len() + growth_spec(sorted, k),
    decreases sorted.len() - k,
{
    if k < sorted.len() {
        if list.fault_spec(sorted, k, path, offset) is None {
            let r = sorted[k];
            let count = r.one_past_last_point - r.first_point;
            let next = list.step_spec(r, path, offset);
            let id = r.segment_id as int;
            let grown = Segment { length: (path.segments[id].length + count - 4) as u16 };
            assert(list.run_x(r).len() == count);
            assert(list.run_y(r).len() == count);
            assert(next.x.len() == path.x.len() + count - 4);
            assert(next.y.len() == path.y.len() + count - 4);
            lemma_segment_within_total(path.segments, id);
            lemma_update_changes_total(path.segments, id, grown);
            assert(segment_wf_spec(path.segments[id]));
            assert(segment_wf_spec(grown));
            assert(next.segments =~= path.segments.update(id, grown));
            assert(next.wf());
            lemma_apply_grows(list, sorted, k + 1, next, offset + count - 4);
        }
    }
}

/// Applying a list without records leaves the path as it is.
pub proof fn lemma_apply_nothing<S: Scalar>(list: ChangeListModel<S>, path: PathModel<S>)
    requires
        list.changes.len() == 0,
    ensures
        list.apply_spec(path) == Ok::<PathModel<S>, ChangeError>(path),
{
}

} // verus!
