//! Reconstruction of the track: a fold over the records that keeps the last
//! anchor and turns every delta into one absolute point.
//!
//! A delta is always measured from the last anchor, never from the point
//! before it. A point therefore holds each coordinate in two exact parts, the
//! anchor's value as it was read and the delta's change as a fraction; adding
//! the two is left to whoever needs a single number.

use crate::number::{is_float_literal, FloatLiteral};
use crate::record::{
    record_views, FixedPoint, Record, RecordView, DEGREE_SCALE, ELEVATION_SCALE,
};
use crate::time::{instant_after, Timestamp};
use vstd::prelude::*;

verus! {

/// One coordinate of a point: the value at the anchor plus a change.
#[derive(Debug, PartialEq, Eq)]
pub struct Coordinate {
    /// The coordinate of the anchor, in degrees or metres.
    pub origin: FloatLiteral,
    /// The change since the anchor.
    pub change: FixedPoint,
}

/// What a coordinate holds, with the origin as a sequence of characters.
pub struct CoordinateView {
    pub origin: Seq<char>,
    pub change: FixedPoint,
}

impl View for Coordinate {
    type V = CoordinateView;

    open spec fn view(&self) -> CoordinateView {
        CoordinateView { origin: self.origin@, change: self.change }
    }
}

impl Clone for Coordinate {
    fn clone(&self) -> (copy: Self)
        ensures
            copy@ == self@,
    {
        Coordinate { origin: self.origin.clone(), change: self.change }
    }
}

/// One absolute sample of the track.
#[derive(Debug, PartialEq, Eq)]
pub struct TrackPoint {
    pub time: Timestamp,
    pub latitude: Coordinate,
    pub longitude: Coordinate,
    pub elevation: Coordinate,
    /// Metres per second.
    pub speed: FloatLiteral,
    /// Degrees.
    pub course: FloatLiteral,
}

/// What a track point holds, with texts as sequences of characters.
pub struct TrackPointView {
    pub time: Timestamp,
    pub latitude: CoordinateView,
    pub longitude: CoordinateView,
    pub elevation: CoordinateView,
    pub speed: Seq<char>,
    pub course: Seq<char>,
}

impl View for TrackPoint {
    type V = TrackPointView;

    open spec fn view(&self) -> TrackPointView {
        TrackPointView {
            time: self.time,
            latitude: self.latitude@,
            longitude: self.longitude@,
            elevation: self.elevation@,
            speed: self.speed@,
            course: self.course@,
        }
    }
}

impl Clone for TrackPoint {
    fn clone(&self) -> (copy: Self)
        ensures
            copy@ == self@,
    {
        TrackPoint {
            time: self.time,
            latitude: self.latitude.clone(),
            longitude: self.longitude.clone(),
            elevation: self.elevation.clone(),
            speed: self.speed.clone(),
            course: self.course.clone(),
        }
    }
}

/// Why a record cannot be folded into the track.
#[derive(Clone, Copy, Debug, PartialEq, Eq, Structural)]
pub enum ApplyError {
    /// A delta came before any anchor.
    MissingAnchor,
    /// The anchor's instant plus the delta's duration is outside the
    /// supported calendar.
    TimeOutOfRange,
}

impl ApplyError {
    /// The error in words.
    pub open spec fn message_spec(&self) -> Seq<char> {
        match *self {
            ApplyError::MissingAnchor => "delta record without a preceding anchor"@,
            ApplyError::TimeOutOfRange => "time of the point is out of range"@,
        }
    }

    /// The error in words.
    pub fn message(&self) -> (message: &'static str)
        ensures
            message@ == self.message_spec(),
    {
        match self {
            ApplyError::MissingAnchor => "delta record without a preceding anchor",
            ApplyError::TimeOutOfRange => "time of the point is out of range",
        }
    }
}

/// Why a sequence of records gives no track: the position of the first record
/// that cannot be folded, counted from zero, and what is wrong with it.
#[derive(Clone, Copy, Debug, PartialEq, Eq, Structural)]
pub struct ReconstructError {
    pub record: usize,
    pub cause: ApplyError,
}

/// The state of the fold: the last anchor, if one was seen, and the points
/// made so far.
pub struct TrackState {
    pub anchor: Option<TrackPointView>,
    pub points: Seq<TrackPointView>,
}

/// A coordinate with no change yet.
pub open spec fn unchanged(origin: Seq<char>, scale: i64) -> CoordinateView {
    CoordinateView { origin, change: FixedPoint { raw: 0, scale } }
}

/// The point that an anchor seeds the state with: at the anchor, with speed
/// and course zero until a delta sets them.
pub open spec fn origin_point(
    timestamp: Timestamp,
    latitude: Seq<char>,
    longitude: Seq<char>,
    elevation: Seq<char>,
) -> TrackPointView {
    TrackPointView {
        time: timestamp,
        latitude: unchanged(latitude, DEGREE_SCALE),
        longitude: unchanged(longitude, DEGREE_SCALE),
        elevation: unchanged(elevation, ELEVATION_SCALE),
        speed: seq!['0'],
        course: seq!['0'],
    }
}

/// The point that a delta makes of the anchor point: the anchor's origins with
/// the delta's changes, at the instant `time`, with the delta's speed and
/// heading.
pub open spec fn displaced_point(
    anchor: TrackPointView,
    time: Timestamp,
    latitude: FixedPoint,
    longitude: FixedPoint,
    elevation: FixedPoint,
    speed: Seq<char>,
    heading: Seq<char>,
) -> TrackPointView {
    TrackPointView {
        time,
        latitude: CoordinateView { origin: anchor.latitude.origin, change: latitude },
        longitude: CoordinateView { origin: anchor.longitude.origin, change: longitude },
        elevation: CoordinateView { origin: anchor.elevation.origin, change: elevation },
        speed,
        course: heading,
    }
}

/// What a delta of `millis` milliseconds makes of the anchor point when the
/// calendar gives `end` as the instant that lies so long after the anchor.
pub open spec fn displaced(
    anchor: TrackPointView,
    millis: i64,
    end: Option<i64>,
    latitude: FixedPoint,
    longitude: FixedPoint,
    elevation: FixedPoint,
    speed: Seq<char>,
    heading: Seq<char>,
) -> Result<TrackPointView, ApplyError> {
    match anchor.time.moved_to(millis, end) {
        Some(time) => Ok(
            displaced_point(anchor, time, latitude, longitude, elevation, speed, heading),
        ),
        None => Err(ApplyError::TimeOutOfRange),
    }
}

/// The state before any record.
pub open spec fn initial_state() -> TrackState {
    TrackState { anchor: None, points: Seq::empty() }
}

/// One step of the fold. An anchor replaces the last anchor and makes no
/// point. A delta makes one point of the last anchor and leaves the anchor as
/// it is. Every other record changes nothing.
pub open spec fn step_spec(state: TrackState, record: RecordView) -> Result<
    TrackState,
    ApplyError,
> {
    match record {
        RecordView::Anchor { timestamp, latitude, longitude, elevation } => Ok(
            TrackState {
                anchor: Some(origin_point(timestamp, latitude, longitude, elevation)),
                points: state.points,
            },
        ),
        RecordView::Delta { millis, latitude, longitude, elevation, speed, heading } => {
            match state.anchor {
                None => Err(ApplyError::MissingAnchor),
                Some(anchor) => match displaced(
                    anchor,
                    millis,
                    instant_after(anchor.time.utc_millis, anchor.time.offset_seconds, millis),
                    latitude,
                    longitude,
                    elevation,
                    speed,
                    heading,
                ) {
                    Ok(point) => Ok(
                        TrackState { anchor: state.anchor, points: state.points.push(point) },
                    ),
                    Err(cause) => Err(cause),
                },
            }
        },
        _ => Ok(state),
    }
}

/// The fold over all of `records`, from the first to the last. It stops at the
/// first record that cannot be folded.
pub open spec fn fold_spec(records: Seq<RecordView>) -> Result<TrackState, ReconstructError>
    decreases records.len(),
{
    if records.len() == 0 {
        Ok(initial_state())
    } else {
        match fold_spec(records.drop_last()) {
            Err(error) => Err(error),
            Ok(state) => match step_spec(state, records.last()) {
                Ok(next) => Ok(next),
                Err(cause) => Err(
                    ReconstructError { record: (records.len() - 1) as usize, cause },
                ),
            },
        }
    }
}

/// The track that `records` describe: the points of the fold, in order.
pub open spec fn reconstruct_spec(records: Seq<RecordView>) -> Result<
    Seq<TrackPointView>,
    ReconstructError,
> {
    match fold_spec(records) {
        Ok(state) => Ok(state.points),
        Err(error) => Err(error),
    }
}

/// The views of a sequence of points, in order.
pub open spec fn point_views(points: Seq<TrackPoint>) -> Seq<TrackPointView> {
    Seq::new(points.len(), |i: int| points[i]@)
}

/// Whether the texts of a point are float literals and its offset is valid.
pub open spec fn point_wf(point: TrackPointView) -> bool {
    &&& point.time.wf()
    &&& is_float_literal(point.latitude.origin)
    &&& is_float_literal(point.longitude.origin)
    &&& is_float_literal(point.elevation.origin)
    &&& is_float_literal(point.speed)
    &&& is_float_literal(point.course)
}

impl TrackPoint {
    /// Whether the texts held are float literals and the offset is valid.
    pub open spec fn wf(&self) -> bool {
        point_wf(self@)
    }

    /// The point at an anchor, before any delta.
    pub fn at_anchor(
        timestamp: Timestamp,
        latitude: &FloatLiteral,
        longitude: &FloatLiteral,
        elevation: &FloatLiteral,
    ) -> (point: TrackPoint)
        ensures
            point@ == origin_point(timestamp, latitude@, longitude@, elevation@),
            timestamp.wf() && latitude.wf() && longitude.wf() && elevation.wf() ==> point.wf(),
    {
        TrackPoint {
            time: timestamp,
            latitude: Coordinate {
                origin: latitude.clone(),
                change: FixedPoint { raw: 0, scale: DEGREE_SCALE },
            },
            longitude: Coordinate {
                origin: longitude.clone(),
                change: FixedPoint { raw: 0, scale: DEGREE_SCALE },
            },
            elevation: Coordinate {
                origin: elevation.clone(),
                change: FixedPoint { raw: 0, scale: ELEVATION_SCALE },
            },
            speed: FloatLiteral::zero(),
            course: FloatLiteral::zero(),
        }
    }

    /// The point that a delta of `millis` milliseconds makes of this anchor
    /// point, given the instant `end` that the calendar found for it. The
    /// changes replace those of the anchor point; they are not added to those
    /// of an earlier delta.
    pub fn displaced_to(
        &self,
        millis: i64,
        end: Option<i64>,
        latitude: FixedPoint,
        longitude: FixedPoint,
        elevation: FixedPoint,
        speed: &FloatLiteral,
        heading: &FloatLiteral,
    ) -> (out: Result<TrackPoint, ApplyError>)
        ensures
            match out {
                Ok(point) => displaced(
                    self@,
                    millis,
                    end,
                    latitude,
                    longitude,
                    elevation,
                    speed@,
                    heading@,
                ) == Ok::<TrackPointView, ApplyError>(point@),
                Err(cause) => displaced(
                    self@,
                    millis,
                    end,
                    latitude,
                    longitude,
                    elevation,
                    speed@,
                    heading@,
                ) == Err::<TrackPointView, ApplyError>(cause),
            },
            out matches Ok(point) ==> (self.wf() && speed.wf() && heading.wf() ==> point.wf()),
            out matches Ok(point) ==> point.time.utc_millis == self.time.utc_millis + millis,
    {
        match self.time.moved(millis, end) {
            None => Err(ApplyError::TimeOutOfRange),
            Some(time) => Ok(
                TrackPoint {
                    time,
                    latitude: Coordinate { origin: self.latitude.origin.clone(), change: latitude },
                    longitude: Coordinate {
                        origin: self.longitude.origin.clone(),
                        change: longitude,
                    },
                    elevation: Coordinate {
                        origin: self.elevation.origin.clone(),
                        change: elevation,
                    },
                    speed: speed.clone(),
                    course: heading.clone(),
                },
            ),
        }
    }
}

/// Whether every point of the state is well formed.
pub open spec fn state_wf(state: TrackState) -> bool {
    &&& state.anchor matches Some(anchor) ==> point_wf(anchor)
    &&& forall|i: int| 0 <= i < state.points.len() ==> point_wf(#[trigger] state.points[i])
}

/// The accumulator of the fold: the last anchor and the points made so far.
pub struct Reconstructor {
    anchor: Option<TrackPoint>,
    points: Vec<TrackPoint>,
}

impl View for Reconstructor {
    type V = TrackState;

    closed spec fn view(&self) -> TrackState {
        TrackState {
            anchor: match self.anchor {
                Some(anchor) => Some(anchor@),
                None => None,
            },
            points: point_views(self.points@),
        }
    }
}

impl Reconstructor {
    /// The accumulator before any record.
    pub fn new() -> (fresh: Reconstructor)
        ensures
            fresh@ == initial_state(),
    {
        let fresh = Reconstructor { anchor: None, points: Vec::new() };
        assert(fresh@.points =~= Seq::empty());
        fresh
    }

    /// Folds one record into the accumulator. On an error the accumulator is
    /// left as it was.
    pub fn step(&mut self, record: &Record) -> (out: Result<(), ApplyError>)
        ensures
            match out {
                Ok(_) => step_spec(old(self)@, record@) == Ok::<TrackState, ApplyError>(
                    final(self)@,
                ),
                Err(cause) => step_spec(old(self)@, record@) == Err::<TrackState, ApplyError>(
                    cause,
                ) && final(self)@ == old(self)@,
            },
            state_wf(old(self)@) && record.wf() ==> state_wf(final(self)@),
    {
        match record {
            Record::Anchor { timestamp, latitude, longitude, elevation } => {
                let seed = TrackPoint::at_anchor(*timestamp, latitude, longitude, elevation);
                self.anchor = Some(seed);
                Ok(())
            },
            Record::Delta { millis, latitude, longitude, elevation, speed, heading } => {
                let made = match &self.anchor {
                    None => Err(ApplyError::MissingAnchor),
                    Some(anchor) => {
                        let end = anchor.time.instant_plus(*millis);
                        anchor.displaced_to(
                            *millis,
                            end,
                            *latitude,
                            *longitude,
                            *elevation,
                            speed,
                            heading,
                        )
                    },
                };
                match made {
                    Err(cause) => Err(cause),
                    Ok(point) => {
                        proof {
                            assert(point_views(self.points@.push(point)) =~= point_views(
                                self.points@,
                            ).push(point@));
                        }
                        self.points.push(point);
                        Ok(())
                    },
                }
            },
            _ => Ok(()),
        }
    }

    /// The last anchor, if one was seen.
    pub fn anchor(&self) -> (anchor: Option<&TrackPoint>)
        ensures
            match anchor {
                Some(point) => self@.anchor == Some(point@),
                None => self@.anchor is None,
            },
    {
        self.anchor.as_ref()
    }

    /// The number of points made so far.
    pub fn len(&self) -> (count: usize)
        ensures
            count == self@.points.len(),
    {
        self.points.len()
    }

    /// Ends the fold and hands out the points, in the order of their deltas.
    pub fn finish(self) -> (points: Vec<TrackPoint>)
        ensures
            point_views(points@) == self@.points,
    {
        self.points
    }
}

/// Reconstructs the track that `records` describe: one point for every delta,
/// in order, each measured from the last anchor before it. The first record
/// that cannot be folded ends the run with its position and the cause.
pub fn reconstruct(records: &Vec<Record>) -> (out: Result<Vec<TrackPoint>, ReconstructError>)
    ensures
        match out {
            Ok(points) => reconstruct_spec(record_views(records@)) == Ok::<
                Seq<TrackPointView>,
                ReconstructError,
            >(point_views(points@)),
            Err(error) => reconstruct_spec(record_views(records@)) == Err::<
                Seq<TrackPointView>,
                ReconstructError,
            >(error),
        },
        (forall|i: int| 0 <= i < records.len() ==> (#[trigger] records[i]).wf()) ==> (
        out matches Ok(points) ==> forall|j: int|
            0 <= j < points.len() ==> (#[trigger] points[j]).wf()),
{
    let ghost all = record_views(records@);
    let mut state = Reconstructor::new();
    let mut i: usize = 0;
    assert(all.take(0) =~= Seq::empty());
    while i < records.len()
        invariant
            i <= records.len(),
            all == record_views(records@),
            fold_spec(all.take(i as int)) == Ok::<TrackState, ReconstructError>(state@),
            (forall|k: int| 0 <= k < records.len() ==> (#[trigger] records[k]).wf()) ==> state_wf(
                state@,
            ),
        decreases records.len() - i,
    {
        proof {
            assert(all.take(i + 1).drop_last() =~= all.take(i as int));
            assert(all.take(i + 1).last() == records[i as int]@);
        }
        match state.step(&records[i]) {
            Ok(_) => {},
            Err(cause) => {
                proof {
                    lemma_fold_error_persists(all, i + 1);
                }
                return Err(ReconstructError { record: i, cause });
            },
        }
        i += 1;
    }
    assert(all.take(i as int) =~= all);
    let points = state.finish();
    proof {
        if forall|k: int| 0 <= k < records.len() ==> (#[trigger] records[k]).wf() {
            assert forall|j: int| 0 <= j < points.len() implies (#[trigger] points[j]).wf() by {
                assert(point_views(points@)[j] == points[j]@);
            }
        }
    }
    Ok(points)
}

/// Once the fold has failed on a prefix, it fails in the same way on the whole.
pub proof fn lemma_fold_error_persists(records: Seq<RecordView>, prefix: int)
    requires
        0 <= prefix <= records.len(),
        fold_spec(records.take(prefix)) is Err,
    ensures
        fold_spec(records) == fold_spec(records.take(prefix)),
    decreases records.len(),
{
    if prefix == records.len() {
        assert(records.take(prefix) =~= records);
    } else {
        assert(records.drop_last().take(prefix) =~= records.take(prefix));
        lemma_fold_error_persists(records.drop_last(), prefix);
    }
}

/// The point that the state holds after an anchor record.
pub open spec fn anchor_point(anchor: RecordView) -> TrackPointView
    recommends
        anchor is Anchor,
{
    match anchor {
        RecordView::Anchor { timestamp, latitude, longitude, elevation } => origin_point(
            timestamp,
            latitude,
            longitude,
            elevation,
        ),
        _ => arbitrary(),
    }
}

/// The point that a delta record makes of an anchor point: the anchor's own
/// position with the changes of this delta alone, the delta's duration after
/// the anchor's instant, in the anchor's offset.
pub open spec fn delta_point(anchor: TrackPointView, delta: RecordView) -> TrackPointView
    recommends
        delta is Delta,
{
    match delta {
        RecordView::Delta { millis, latitude, longitude, elevation, speed, heading } => {
            displaced_point(
                anchor,
                Timestamp {
                    utc_millis: (anchor.time.utc_millis + millis) as i64,
                    offset_seconds: anchor.time.offset_seconds,
                },
                latitude,
                longitude,
                elevation,
                speed,
                heading,
            )
        },
        _ => arbitrary(),
    }
}

/// After one anchor and any number of deltas, the fold holds that anchor and
/// one point for each delta, made of the anchor and that delta alone.
proof fn lemma_fold_after_anchor(anchor: RecordView, deltas: Seq<RecordView>)
    requires
        anchor is Anchor,
        forall|i: int| 0 <= i < deltas.len() ==> deltas[i] is Delta,
        fold_spec(seq![anchor] + deltas) is Ok,
    ensures
        fold_spec(seq![anchor] + deltas)->Ok_0.anchor == Some(anchor_point(anchor)),
        fold_spec(seq![anchor] + deltas)->Ok_0.points.len() == deltas.len(),
        forall|k: int|
            0 <= k < deltas.len() ==> #[trigger] fold_spec(seq![anchor] + deltas)->Ok_0.points[k]
                == delta_point(anchor_point(anchor), deltas[k]),
    decreases deltas.len(),
{
    let records = seq![anchor] + deltas;
    if deltas.len() == 0 {
        assert(records.drop_last() =~= Seq::empty());
        assert(records.last() == anchor);
        assert(fold_spec(records.drop_last()) == Ok::<TrackState, ReconstructError>(
            initial_state(),
        ));
        assert(fold_spec(records)->Ok_0.points =~= Seq::empty());
    } else {
        let earlier = deltas.drop_last();
        assert(records.drop_last() =~= seq![anchor] + earlier);
        assert(records.last() == deltas.last());
        lemma_fold_after_anchor(anchor, earlier);
        let before = fold_spec(seq![anchor] + earlier)->Ok_0;
        let after = fold_spec(records)->Ok_0;
        assert(step_spec(before, deltas.last()) == Ok::<TrackState, ApplyError>(after));
        assert(deltas.last() is Delta);
        assert(after.points.len() == before.points.len() + 1);
        assert forall|k: int| 0 <= k < deltas.len() implies #[trigger] after.points[k]
            == delta_point(anchor_point(anchor), deltas[k]) by {
            if k < earlier.len() {
                assert(after.points[k] == before.points[k]);
                assert(earlier[k] == deltas[k]);
            }
        }
    }
}

/// Every point is its anchor plus its own delta. Where one anchor is followed
/// by deltas only and the track can be reconstructed, there is one point for
/// each delta, and the point of a delta holds the anchor's position, the
/// changes of that delta and of no other, that delta's speed and heading, and
/// the instant that lies that delta's duration after the anchor.
pub proof fn lemma_point_is_anchor_plus_own_delta(
    anchor: RecordView,
    deltas: Seq<RecordView>,
    k: int,
)
    requires
        anchor is Anchor,
        forall|i: int| 0 <= i < deltas.len() ==> deltas[i] is Delta,
        reconstruct_spec(seq![anchor] + deltas) is Ok,
        0 <= k < deltas.len(),
    ensures
        reconstruct_spec(seq![anchor] + deltas)->Ok_0.len() == deltas.len(),
        reconstruct_spec(seq![anchor] + deltas)->Ok_0[k] == delta_point(
            anchor_point(anchor),
            deltas[k],
        ),
{
    lemma_fold_after_anchor(anchor, deltas);
}

/// Two deltas with the same fields, after the same anchor, make the same
/// point, however many deltas lie between them.
pub proof fn lemma_equal_deltas_make_equal_points(
    anchor: RecordView,
    deltas: Seq<RecordView>,
    j: int,
    k: int,
)
    requires
        anchor is Anchor,
        forall|i: int| 0 <= i < deltas.len() ==> deltas[i] is Delta,
        reconstruct_spec(seq![anchor] + deltas) is Ok,
        0 <= j < deltas.len(),
        0 <= k < deltas.len(),
        deltas[j] == deltas[k],
    ensures
        reconstruct_spec(seq![anchor] + deltas)->Ok_0[j] == reconstruct_spec(
            seq![anchor] + deltas,
        )->Ok_0[k],
{
    lemma_fold_after_anchor(anchor, deltas);
}

/// Without an anchor the fold keeps no anchor, and it fails at the first
/// delta, if there is one.
proof fn lemma_fold_without_anchor(records: Seq<RecordView>)
    requires
        records.len() <= usize::MAX,
        forall|i: int| 0 <= i < records.len() ==> !(records[i] is Anchor),
    ensures
        match fold_spec(records) {
            Ok(state) => state == initial_state() && forall|i: int|
                0 <= i < records.len() ==> !(records[i] is Delta),
            Err(error) => error.cause == ApplyError::MissingAnchor && error.record < records.len()
                && records[error.record as int] is Delta && forall|i: int|
                0 <= i < error.record ==> !(records[i] is Delta),
        },
    decreases records.len(),
{
    if records.len() > 0 {
        let earlier = records.drop_last();
        lemma_fold_without_anchor(earlier);
        match fold_spec(earlier) {
            Ok(state) => {
                assert forall|i: int| 0 <= i < records.len() - 1 implies !(records[i] is Delta) by {
                    assert(earlier[i] == records[i]);
                }
            },
            Err(error) => {
                assert(earlier[error.record as int] == records[error.record as int]);
                assert forall|i: int| 0 <= i < error.record implies !(records[i] is Delta) by {
                    assert(earlier[i] == records[i]);
                }
            },
        }
    }
}

/// A delta with no anchor before it is an error, never a point. Where the
/// record at `position` is a delta and no record before it is an anchor,
/// reconstruction fails with a missing anchor, at the first delta.
pub proof fn lemma_delta_without_anchor_fails(records: Seq<RecordView>, position: int)
    requires
        records.len() <= usize::MAX,
        0 <= position < records.len(),
        records[position] is Delta,
        forall|i: int| 0 <= i < position ==> !(records[i] is Anchor),
    ensures
        reconstruct_spec(records) is Err,
        reconstruct_spec(records)->Err_0.cause == ApplyError::MissingAnchor,
        reconstruct_spec(records)->Err_0.record <= position,
        records[reconstruct_spec(records)->Err_0.record as int] is Delta,
        forall|i: int|
            0 <= i < reconstruct_spec(records)->Err_0.record ==> !(records[i] is Delta),
{
    let prefix = records.take(position + 1);
    assert(prefix[position] == records[position]);
    lemma_fold_without_anchor(prefix);
    lemma_fold_error_persists(records, position + 1);
    let error = fold_spec(prefix)->Err_0;
    assert(prefix[error.record as int] == records[error.record as int]);
    assert forall|i: int| 0 <= i < error.record implies !(records[i] is Delta) by {
        assert(prefix[i] == records[i]);
    }
}

/// No records, no points: an empty recording reconstructs to an empty track.
pub proof fn lemma_empty_recording_gives_empty_track()
    ensures
        reconstruct_spec(Seq::empty()) == Ok::<Seq<TrackPointView>, ReconstructError>(
            Seq::empty(),
        ),
{
}

} // verus!
