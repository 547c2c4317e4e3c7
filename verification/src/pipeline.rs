//! The whole run on a recording that is already in memory: decode every line,
//! summarise the records, reconstruct the track.

use crate::record::{
    decode_stream, decode_stream_spec, record_views, Record, RecordView, StreamError,
    StreamErrorView,
};
use crate::summary::{summarize, summary_of, Summary, SummaryView};
use crate::text::texts;
use crate::track::{
    point_views, reconstruct, reconstruct_spec, ReconstructError, TrackPoint, TrackPointView,
};
use vstd::prelude::*;

verus! {

/// What a recording converts to.
#[derive(Debug, PartialEq, Eq)]
pub struct Conversion {
    /// The records, one for every line.
    pub records: Vec<Record>,
    /// The summary of the records.
    pub summary: Summary,
    /// The track, one point for every delta.
    pub points: Vec<TrackPoint>,
}

/// What a conversion holds, by the views of its parts.
pub struct ConversionView {
    pub records: Seq<RecordView>,
    pub summary: SummaryView,
    pub points: Seq<TrackPointView>,
}

impl View for Conversion {
    type V = ConversionView;

    open spec fn view(&self) -> ConversionView {
        ConversionView {
            records: record_views(self.records@),
            summary: self.summary@,
            points: point_views(self.points@),
        }
    }
}

/// Why a recording does not convert. Either way nothing is produced.
#[derive(Clone, Debug, PartialEq, Eq)]
pub enum ConvertError {
    /// A line is not a record.
    Decode(StreamError),
    /// The records give no track.
    Reconstruct(ReconstructError),
}

/// What a convert error holds, by the views of its parts.
pub enum ConvertErrorView {
    Decode(StreamErrorView),
    Reconstruct(ReconstructError),
}

impl View for ConvertError {
    type V = ConvertErrorView;

    open spec fn view(&self) -> ConvertErrorView {
        match *self {
            ConvertError::Decode(error) => ConvertErrorView::Decode(error@),
            ConvertError::Reconstruct(error) => ConvertErrorView::Reconstruct(error),
        }
    }
}

/// What the lines of a recording convert to. Every line must decode before
/// anything is reconstructed, so an error in a line comes before an error in
/// the track.
pub open spec fn convert_spec(lines: Seq<Seq<char>>) -> Result<ConversionView, ConvertErrorView> {
    match decode_stream_spec(lines) {
        Err(error) => Err(ConvertErrorView::Decode(error)),
        Ok(records) => match reconstruct_spec(records) {
            Err(error) => Err(ConvertErrorView::Reconstruct(error)),
            Ok(points) => Ok(ConversionView { records, summary: summary_of(records), points }),
        },
    }
}

/// Converts the lines of a recording into its records, their summary and the
/// track.
pub fn convert(lines: &Vec<String>) -> (out: Result<Conversion, ConvertError>)
    ensures
        match out {
            Ok(conversion) => convert_spec(texts(lines@)) == Ok::<
                ConversionView,
                ConvertErrorView,
            >(conversion@),
            Err(error) => convert_spec(texts(lines@)) == Err::<ConversionView, ConvertErrorView>(
                error@,
            ),
        },
        out matches Ok(conversion) ==> {
            &&& forall|i: int|
                0 <= i < conversion.records.len() ==> (#[trigger] conversion.records[i]).wf()
            &&& forall|i: int|
                0 <= i < conversion.points.len() ==> (#[trigger] conversion.points[i]).wf()
        },
{
    let records = match decode_stream(lines) {
        Ok(records) => records,
        Err(error) => {
            return Err(ConvertError::Decode(error));
        },
    };
    let summary = summarize(&records);
    let points = match reconstruct(&records) {
        Ok(points) => points,
        Err(error) => {
            return Err(ConvertError::Reconstruct(error));
        },
    };
    Ok(Conversion { records, summary, points })
}

/// A recording without lines is no error: it converts to no records, a
/// summary that reports no data, and an empty track.
pub proof fn lemma_empty_recording_converts()
    ensures
        convert_spec(Seq::empty()) == Ok::<ConversionView, ConvertErrorView>(
            ConversionView {
                records: Seq::empty(),
                summary: SummaryView::NoData { records: 0 },
                points: Seq::empty(),
            },
        ),
{
    let none = Seq::<RecordView>::empty();
    assert(decode_stream_spec(Seq::empty()) == Ok::<Seq<RecordView>, StreamErrorView>(none));
    assert(reconstruct_spec(none) == Ok::<Seq<TrackPointView>, ReconstructError>(Seq::empty()));
    assert(summary_of(none) == (SummaryView::NoData { records: 0 }));
}

} // verus!
