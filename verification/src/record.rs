//! The records of a recording and the decoding of one line into one record.
//!
//! A line is a tag followed by the fields that the tag asks for. Decoding
//! fails on the first field, from left to right, that is missing or does not
//! hold a value of its type; nothing is skipped and nothing is guessed.

use crate::number::{parse_float, parse_int, read_int, Fault, FloatLiteral};
use crate::text::{chars_of, split_fields, split_line, texts};
use crate::time::{
    datetime_parses, instant_exists, epoch_seconds, offset_seconds_of, subsecond_nanos,
    valid_datetime, valid_duration, TimeError, Timestamp, DATETIME_FORMAT,
};
use vstd::prelude::*;
use vstd::string::*;

verus! {

/// Units per degree in the position changes of a delta line.
pub const DEGREE_SCALE: i64 = 1_000_000;

/// Units per metre in the elevation change of a delta line.
pub const ELEVATION_SCALE: i64 = 10;

/// An exact fraction: `raw` units of which `scale` make one.
#[derive(Clone, Copy, Debug, PartialEq, Eq, Structural)]
pub struct FixedPoint {
    /// The number of units, as read.
    pub raw: i64,
    /// How many units make one degree or metre.
    pub scale: i64,
}

/// The kinds of line.
#[derive(Clone, Copy, Debug, PartialEq, Eq, Structural)]
pub enum Tag {
    /// `U`: the user's name.
    User,
    /// `V`: the version of the recorder.
    RecorderVersion,
    /// `A`: the version of the application.
    AppVersion,
    /// `I`: what identifies the device.
    Device,
    /// `H`: an absolute position and instant.
    Anchor,
    /// `D`: a change relative to the last anchor.
    Delta,
}

/// The fields that a line can be asked for.
#[derive(Clone, Copy, Debug, PartialEq, Eq, Structural)]
pub enum Field {
    Username,
    Version,
    AppVersion,
    Timestamp,
    Latitude,
    Longitude,
    Elevation,
    LocalTimestamp,
    FirstDatetime,
    SecondDatetime,
    Milliseconds,
    LatitudeChange,
    LongitudeChange,
    ElevationChange,
    Speed,
    Heading,
}

/// One decoded line.
#[allow(inconsistent_fields)]
#[derive(Clone, Debug, PartialEq, Eq)]
pub enum Record {
    /// The user's name.
    User(String),
    /// The version of the recorder.
    RecorderVersion(String),
    /// The version of the application.
    AppVersion(String),
    /// The fields that identify the device, as they stand.
    Device(Vec<String>),
    /// An absolute position, in degrees and metres, at an instant.
    Anchor {
        timestamp: Timestamp,
        latitude: FloatLiteral,
        longitude: FloatLiteral,
        elevation: FloatLiteral,
    },
    /// A change since the last anchor: elapsed milliseconds, changes of
    /// position and elevation as exact fractions, and the speed in metres per
    /// second and heading in degrees at that moment.
    Delta {
        millis: i64,
        latitude: FixedPoint,
        longitude: FixedPoint,
        elevation: FixedPoint,
        speed: FloatLiteral,
        heading: FloatLiteral,
    },
}

/// What a record holds, with texts as sequences of characters.
#[allow(inconsistent_fields)]
pub enum RecordView {
    User(Seq<char>),
    RecorderVersion(Seq<char>),
    AppVersion(Seq<char>),
    Device(Seq<Seq<char>>),
    Anchor {
        timestamp: Timestamp,
        latitude: Seq<char>,
        longitude: Seq<char>,
        elevation: Seq<char>,
    },
    Delta {
        millis: i64,
        latitude: FixedPoint,
        longitude: FixedPoint,
        elevation: FixedPoint,
        speed: Seq<char>,
        heading: Seq<char>,
    },
}

impl View for Record {
    type V = RecordView;

    open spec fn view(&self) -> RecordView {
        match *self {
            Record::User(name) => RecordView::User(name@),
            Record::RecorderVersion(version) => RecordView::RecorderVersion(version@),
            Record::AppVersion(version) => RecordView::AppVersion(version@),
            Record::Device(fields) => RecordView::Device(texts(fields@)),
            Record::Anchor { timestamp, latitude, longitude, elevation } => RecordView::Anchor {
                timestamp,
                latitude: latitude@,
                longitude: longitude@,
                elevation: elevation@,
            },
            Record::Delta {
                millis,
                latitude,
                longitude,
                elevation,
                speed,
                heading,
            } => RecordView::Delta {
                millis,
                latitude,
                longitude,
                elevation,
                speed: speed@,
                heading: heading@,
            },
        }
    }
}

/// Why a line is not a record.
#[derive(Clone, Debug, PartialEq, Eq)]
pub enum DecodeError {
    /// There is no field at all, so no tag.
    MissingTag,
    /// The tag is none of the known ones; it is carried along.
    UnknownTag(String),
    /// The line ends before this field.
    MissingField(Field),
    /// This field does not hold a value of its type.
    InvalidField(Field, Fault),
}

/// What a decode error holds, with the tag as a sequence of characters.
pub enum DecodeErrorView {
    MissingTag,
    UnknownTag(Seq<char>),
    MissingField(Field),
    InvalidField(Field, Fault),
}

impl View for DecodeError {
    type V = DecodeErrorView;

    open spec fn view(&self) -> DecodeErrorView {
        match *self {
            DecodeError::MissingTag => DecodeErrorView::MissingTag,
            DecodeError::UnknownTag(tag) => DecodeErrorView::UnknownTag(tag@),
            DecodeError::MissingField(field) => DecodeErrorView::MissingField(field),
            DecodeError::InvalidField(field, fault) => DecodeErrorView::InvalidField(field, fault),
        }
    }
}

/// The outcome of a decoding step, with value and error taken by their views.
pub open spec fn outcome<T: View>(result: Result<T, DecodeError>) -> Result<T::V, DecodeErrorView> {
    match result {
        Ok(value) => Ok(value@),
        Err(error) => Err(error@),
    }
}

impl Record {
    /// Whether the float fields hold float literals, the timestamp is well
    /// formed, the fractions have their scales and the duration can be
    /// represented. Every record that decoding returns is well formed.
    pub open spec fn wf(&self) -> bool {
        record_wf(self@)
    }
}

/// Well-formedness of a record, stated on its view.
pub open spec fn record_wf(record: RecordView) -> bool {
    match record {
        RecordView::Anchor { timestamp, latitude, longitude, elevation } => {
            &&& timestamp.wf()
            &&& crate::number::is_float_literal(latitude)
            &&& crate::number::is_float_literal(longitude)
            &&& crate::number::is_float_literal(elevation)
        },
        RecordView::Delta { millis, latitude, longitude, elevation, speed, heading } => {
            &&& millis > i64::MIN
            &&& latitude.scale == DEGREE_SCALE
            &&& longitude.scale == DEGREE_SCALE
            &&& elevation.scale == ELEVATION_SCALE
            &&& crate::number::is_float_literal(speed)
            &&& crate::number::is_float_literal(heading)
        },
        _ => true,
    }
}

/// The kind of line that the tag `text` names, if it is a known tag.
pub open spec fn tag_of(text: Seq<char>) -> Option<Tag> {
    if text.len() != 1 {
        None
    } else if text[0] == 'U' {
        Some(Tag::User)
    } else if text[0] == 'V' {
        Some(Tag::RecorderVersion)
    } else if text[0] == 'A' {
        Some(Tag::AppVersion)
    } else if text[0] == 'I' {
        Some(Tag::Device)
    } else if text[0] == 'H' {
        Some(Tag::Anchor)
    } else if text[0] == 'D' {
        Some(Tag::Delta)
    } else {
        None
    }
}

/// The text at `index`, which the line must be long enough to hold.
pub open spec fn text_field(fields: Seq<Seq<char>>, index: int, field: Field) -> Result<
    Seq<char>,
    DecodeErrorView,
> {
    if 0 <= index < fields.len() {
        Ok(fields[index])
    } else {
        Err(DecodeErrorView::MissingField(field))
    }
}

/// The integer at `index`.
pub open spec fn int_field(fields: Seq<Seq<char>>, index: int, field: Field) -> Result<
    i64,
    DecodeErrorView,
> {
    match text_field(fields, index, field) {
        Err(error) => Err(error),
        Ok(text) => match parse_int(text) {
            Ok(value) => Ok(value),
            Err(fault) => Err(DecodeErrorView::InvalidField(field, fault)),
        },
    }
}

/// The float literal at `index`.
pub open spec fn float_field(fields: Seq<Seq<char>>, index: int, field: Field) -> Result<
    Seq<char>,
    DecodeErrorView,
> {
    match text_field(fields, index, field) {
        Err(error) => Err(error),
        Ok(text) => match parse_float(text) {
            Ok(literal) => Ok(literal),
            Err(fault) => Err(DecodeErrorView::InvalidField(field, fault)),
        },
    }
}

/// The anchor that the values of an anchor line give, when `exists` tells
/// whether the calendar holds the UTC reading and `first_ok` and `second_ok`
/// whether the two calendar fields are dates. The instant is the UTC reading;
/// the local reading fixes the offset; the calendar fields are checked and
/// dropped.
pub open spec fn anchor_of(
    utc_millis: i64,
    latitude: Seq<char>,
    longitude: Seq<char>,
    elevation: Seq<char>,
    local_millis: i64,
    exists: bool,
    first_ok: bool,
    second_ok: bool,
) -> Result<RecordView, DecodeErrorView> {
    match Timestamp::resolved(utc_millis, local_millis, exists) {
        Err(TimeError::OffsetOutOfRange) => Err(
            DecodeErrorView::InvalidField(Field::LocalTimestamp, Fault::OutOfRange),
        ),
        Err(TimeError::InstantOutOfRange) => Err(
            DecodeErrorView::InvalidField(Field::Timestamp, Fault::OutOfRange),
        ),
        Ok(timestamp) => if !first_ok {
            Err(DecodeErrorView::InvalidField(Field::FirstDatetime, Fault::Malformed))
        } else if !second_ok {
            Err(DecodeErrorView::InvalidField(Field::SecondDatetime, Fault::Malformed))
        } else {
            Ok(RecordView::Anchor { timestamp, latitude, longitude, elevation })
        },
    }
}

/// The delta that the values of a delta line give. The changes of position and
/// elevation keep the integers that were read, beside their scales.
pub open spec fn delta_of(
    millis: i64,
    latitude_raw: i64,
    longitude_raw: i64,
    elevation_raw: i64,
    speed: Seq<char>,
    heading: Seq<char>,
) -> Result<RecordView, DecodeErrorView> {
    if millis > i64::MIN {
        Ok(
            RecordView::Delta {
                millis,
                latitude: FixedPoint { raw: latitude_raw, scale: DEGREE_SCALE },
                longitude: FixedPoint { raw: longitude_raw, scale: DEGREE_SCALE },
                elevation: FixedPoint { raw: elevation_raw, scale: ELEVATION_SCALE },
                speed,
                heading,
            },
        )
    } else {
        Err(DecodeErrorView::InvalidField(Field::Milliseconds, Fault::OutOfRange))
    }
}

/// What the fields of an anchor line decode to.
pub open spec fn decode_anchor(fields: Seq<Seq<char>>) -> Result<RecordView, DecodeErrorView> {
    let utc = int_field(fields, 1, Field::Timestamp);
    let latitude = float_field(fields, 2, Field::Latitude);
    let longitude = float_field(fields, 3, Field::Longitude);
    let elevation = float_field(fields, 4, Field::Elevation);
    let local = int_field(fields, 5, Field::LocalTimestamp);
    let first = text_field(fields, 6, Field::FirstDatetime);
    let second = text_field(fields, 7, Field::SecondDatetime);
    if utc is Err {
        Err(utc->Err_0)
    } else if latitude is Err {
        Err(latitude->Err_0)
    } else if longitude is Err {
        Err(longitude->Err_0)
    } else if elevation is Err {
        Err(elevation->Err_0)
    } else if local is Err {
        Err(local->Err_0)
    } else if first is Err {
        Err(first->Err_0)
    } else if second is Err {
        Err(second->Err_0)
    } else {
        anchor_of(
            utc->Ok_0,
            latitude->Ok_0,
            longitude->Ok_0,
            elevation->Ok_0,
            local->Ok_0,
            instant_exists(
                offset_seconds_of(utc->Ok_0 as int, local->Ok_0 as int) as i32,
                epoch_seconds(utc->Ok_0 as int) as i64,
                subsecond_nanos(utc->Ok_0 as int) as u32,
            ),
            datetime_parses(first->Ok_0, DATETIME_FORMAT@),
            datetime_parses(second->Ok_0, DATETIME_FORMAT@),
        )
    }
}

/// What the fields of a delta line decode to.
pub open spec fn decode_delta(fields: Seq<Seq<char>>) -> Result<RecordView, DecodeErrorView> {
    let millis = int_field(fields, 1, Field::Milliseconds);
    let latitude = int_field(fields, 2, Field::LatitudeChange);
    let longitude = int_field(fields, 3, Field::LongitudeChange);
    let elevation = int_field(fields, 4, Field::ElevationChange);
    let speed = float_field(fields, 5, Field::Speed);
    let heading = float_field(fields, 6, Field::Heading);
    if millis is Err {
        Err(millis->Err_0)
    } else if latitude is Err {
        Err(latitude->Err_0)
    } else if longitude is Err {
        Err(longitude->Err_0)
    } else if elevation is Err {
        Err(elevation->Err_0)
    } else if speed is Err {
        Err(speed->Err_0)
    } else if heading is Err {
        Err(heading->Err_0)
    } else {
        delta_of(
            millis->Ok_0,
            latitude->Ok_0,
            longitude->Ok_0,
            elevation->Ok_0,
            speed->Ok_0,
            heading->Ok_0,
        )
    }
}

/// What a sequence of fields decodes to: the first field is the tag, and the
/// tag decides what the others must be. Fields beyond those that the tag asks
/// for are ignored, except on a device line, which keeps them all.
pub open spec fn decode_fields_spec(fields: Seq<Seq<char>>) -> Result<
    RecordView,
    DecodeErrorView,
> {
    if fields.len() == 0 {
        Err(DecodeErrorView::MissingTag)
    } else {
        match tag_of(fields[0]) {
            None => Err(DecodeErrorView::UnknownTag(fields[0])),
            Some(Tag::User) => match text_field(fields, 1, Field::Username) {
                Ok(name) => Ok(RecordView::User(name)),
                Err(error) => Err(error),
            },
            Some(Tag::RecorderVersion) => match text_field(fields, 1, Field::Version) {
                Ok(version) => Ok(RecordView::RecorderVersion(version)),
                Err(error) => Err(error),
            },
            Some(Tag::AppVersion) => match text_field(fields, 1, Field::AppVersion) {
                Ok(version) => Ok(RecordView::AppVersion(version)),
                Err(error) => Err(error),
            },
            Some(Tag::Device) => Ok(RecordView::Device(fields.skip(1))),
            Some(Tag::Anchor) => decode_anchor(fields),
            Some(Tag::Delta) => decode_delta(fields),
        }
    }
}

/// What a line decodes to: its fields are split at the commas and decoded.
pub open spec fn decode_line_spec(line: Seq<char>) -> Result<RecordView, DecodeErrorView> {
    decode_fields_spec(split_fields(line))
}

impl Tag {
    /// Reads a tag.
    pub fn parse(text: &str) -> (tag: Option<Tag>)
        ensures
            tag == tag_of(text@),
    {
        let chars = chars_of(text);
        if chars.len() != 1 {
            return None;
        }
        let c = chars[0];
        if c == 'U' {
            Some(Tag::User)
        } else if c == 'V' {
            Some(Tag::RecorderVersion)
        } else if c == 'A' {
            Some(Tag::AppVersion)
        } else if c == 'I' {
            Some(Tag::Device)
        } else if c == 'H' {
            Some(Tag::Anchor)
        } else if c == 'D' {
            Some(Tag::Delta)
        } else {
            None
        }
    }
}

/// The text at `index`, or the error that names the missing field.
fn text_at<'a>(fields: &'a Vec<String>, index: usize, field: Field) -> (out: Result<
    &'a str,
    DecodeError,
>)
    ensures
        outcome(out) == text_field(texts(fields@), index as int, field),
{
    if index < fields.len() {
        Ok(fields[index].as_str())
    } else {
        Err(DecodeError::MissingField(field))
    }
}

/// The integer at `index`, or the error that names the field.
fn int_at(fields: &Vec<String>, index: usize, field: Field) -> (out: Result<i64, DecodeError>)
    ensures
        outcome(out) == int_field(texts(fields@), index as int, field),
{
    match text_at(fields, index, field) {
        Err(error) => Err(error),
        Ok(text) => match read_int(text) {
            Ok(value) => Ok(value),
            Err(fault) => Err(DecodeError::InvalidField(field, fault)),
        },
    }
}

/// The float literal at `index`, or the error that names the field.
fn float_at(fields: &Vec<String>, index: usize, field: Field) -> (out: Result<
    FloatLiteral,
    DecodeError,
>)
    ensures
        outcome(out) == float_field(texts(fields@), index as int, field),
        out matches Ok(literal) ==> literal.wf(),
{
    match text_at(fields, index, field) {
        Err(error) => Err(error),
        Ok(text) => match FloatLiteral::parse(text) {
            Ok(literal) => Ok(literal),
            Err(fault) => Err(DecodeError::InvalidField(field, fault)),
        },
    }
}

/// All fields but the first, copied.
fn fields_after_tag(fields: &Vec<String>) -> (rest: Vec<String>)
    requires
        fields.len() >= 1,
    ensures
        texts(rest@) == texts(fields@).skip(1),
{
    let mut rest: Vec<String> = Vec::new();
    let mut i: usize = 1;
    while i < fields.len()
        invariant
            1 <= i <= fields.len(),
            rest.len() == i - 1,
            forall|j: int| 0 <= j < rest.len() ==> rest@[j]@ == fields@[j + 1]@,
        decreases fields.len() - i,
    {
        rest.push(fields[i].clone());
        i += 1;
    }
    assert(texts(rest@) =~= texts(fields@).skip(1));
    rest
}

/// Builds the anchor of an anchor line from its values, given what the
/// calendar says of the UTC reading and of the two calendar fields.
pub fn assemble_anchor(
    utc_millis: i64,
    latitude: FloatLiteral,
    longitude: FloatLiteral,
    elevation: FloatLiteral,
    local_millis: i64,
    exists: bool,
    first_ok: bool,
    second_ok: bool,
) -> (out: Result<Record, DecodeError>)
    ensures
        outcome(out) == anchor_of(
            utc_millis,
            latitude@,
            longitude@,
            elevation@,
            local_millis,
            exists,
            first_ok,
            second_ok,
        ),
        out matches Ok(record) ==> (latitude.wf() && longitude.wf() && elevation.wf()
            ==> record.wf()),
{
    match Timestamp::from_readings(utc_millis, local_millis, exists) {
        Err(TimeError::OffsetOutOfRange) => Err(
            DecodeError::InvalidField(Field::LocalTimestamp, Fault::OutOfRange),
        ),
        Err(TimeError::InstantOutOfRange) => Err(
            DecodeError::InvalidField(Field::Timestamp, Fault::OutOfRange),
        ),
        Ok(timestamp) => {
            if !first_ok {
                Err(DecodeError::InvalidField(Field::FirstDatetime, Fault::Malformed))
            } else if !second_ok {
                Err(DecodeError::InvalidField(Field::SecondDatetime, Fault::Malformed))
            } else {
                Ok(Record::Anchor { timestamp, latitude, longitude, elevation })
            }
        },
    }
}

/// Builds the delta of a delta line from its values.
pub fn assemble_delta(
    millis: i64,
    latitude_raw: i64,
    longitude_raw: i64,
    elevation_raw: i64,
    speed: FloatLiteral,
    heading: FloatLiteral,
) -> (out: Result<Record, DecodeError>)
    ensures
        outcome(out) == delta_of(
            millis,
            latitude_raw,
            longitude_raw,
            elevation_raw,
            speed@,
            heading@,
        ),
        out matches Ok(record) ==> (speed.wf() && heading.wf() ==> record.wf()),
{
    if valid_duration(millis) {
        Ok(
            Record::Delta {
                millis,
                latitude: FixedPoint { raw: latitude_raw, scale: DEGREE_SCALE },
                longitude: FixedPoint { raw: longitude_raw, scale: DEGREE_SCALE },
                elevation: FixedPoint { raw: elevation_raw, scale: ELEVATION_SCALE },
                speed,
                heading,
            },
        )
    } else {
        Err(DecodeError::InvalidField(Field::Milliseconds, Fault::OutOfRange))
    }
}

/// Decodes the fields of an anchor line.
fn decode_anchor_fields(fields: &Vec<String>) -> (out: Result<Record, DecodeError>)
    ensures
        outcome(out) == decode_anchor(texts(fields@)),
        out matches Ok(record) ==> record.wf(),
{
    let utc_millis = int_at(fields, 1, Field::Timestamp)?;
    let latitude = float_at(fields, 2, Field::Latitude)?;
    let longitude = float_at(fields, 3, Field::Longitude)?;
    let elevation = float_at(fields, 4, Field::Elevation)?;
    let local_millis = int_at(fields, 5, Field::LocalTimestamp)?;
    let first = text_at(fields, 6, Field::FirstDatetime)?;
    let second = text_at(fields, 7, Field::SecondDatetime)?;
    let exists = crate::time::instant_on_calendar(utc_millis, local_millis);
    let first_ok = valid_datetime(first);
    let second_ok = valid_datetime(second);
    assemble_anchor(
        utc_millis,
        latitude,
        longitude,
        elevation,
        local_millis,
        exists,
        first_ok,
        second_ok,
    )
}

/// Decodes the fields of a delta line.
fn decode_delta_fields(fields: &Vec<String>) -> (out: Result<Record, DecodeError>)
    ensures
        outcome(out) == decode_delta(texts(fields@)),
        out matches Ok(record) ==> record.wf(),
{
    let millis = int_at(fields, 1, Field::Milliseconds)?;
    let latitude_raw = int_at(fields, 2, Field::LatitudeChange)?;
    let longitude_raw = int_at(fields, 3, Field::LongitudeChange)?;
    let elevation_raw = int_at(fields, 4, Field::ElevationChange)?;
    let speed = float_at(fields, 5, Field::Speed)?;
    let heading = float_at(fields, 6, Field::Heading)?;
    assemble_delta(millis, latitude_raw, longitude_raw, elevation_raw, speed, heading)
}

/// Decodes a line that is already split into fields.
pub fn decode_fields(fields: &Vec<String>) -> (out: Result<Record, DecodeError>)
    ensures
        outcome(out) == decode_fields_spec(texts(fields@)),
        out matches Ok(record) ==> record.wf(),
{
    if fields.len() == 0 {
        return Err(DecodeError::MissingTag);
    }
    match Tag::parse(fields[0].as_str()) {
        None => Err(DecodeError::UnknownTag(fields[0].clone())),
        Some(Tag::User) => match text_at(fields, 1, Field::Username) {
            Ok(name) => Ok(Record::User(name.to_owned())),
            Err(error) => Err(error),
        },
        Some(Tag::RecorderVersion) => match text_at(fields, 1, Field::Version) {
            Ok(version) => Ok(Record::RecorderVersion(version.to_owned())),
            Err(error) => Err(error),
        },
        Some(Tag::AppVersion) => match text_at(fields, 1, Field::AppVersion) {
            Ok(version) => Ok(Record::AppVersion(version.to_owned())),
            Err(error) => Err(error),
        },
        Some(Tag::Device) => Ok(Record::Device(fields_after_tag(fields))),
        Some(Tag::Anchor) => decode_anchor_fields(fields),
        Some(Tag::Delta) => decode_delta_fields(fields),
    }
}

/// Decodes one line. A line always has a first field, so the tag is never
/// missing here; an empty one is unknown.
pub fn decode_line(line: &str) -> (out: Result<Record, DecodeError>)
    ensures
        outcome(out) == decode_line_spec(line@),
        out matches Ok(record) ==> record.wf(),
        !(out matches Err(DecodeError::MissingTag)),
{
    let fields = split_line(line);
    decode_fields(&fields)
}

/// The instant of a decoded anchor is its UTC field, exactly. Whenever a line
/// decodes to an anchor, the second field reads as the anchor's milliseconds
/// since the epoch, the seconds and nanoseconds that the instant is looked up
/// by add up to it, and the offset is the difference of the two readings in
/// whole seconds.
pub proof fn lemma_anchor_instant_is_utc_field(line: Seq<char>)
    requires
        decode_line_spec(line) is Ok,
        decode_line_spec(line)->Ok_0 is Anchor,
    ensures
        match decode_line_spec(line)->Ok_0 {
            RecordView::Anchor { timestamp, .. } => {
                let fields = split_fields(line);
                &&& fields.len() >= 8
                &&& parse_int(fields[1]) == Ok::<i64, Fault>(timestamp.utc_millis)
                &&& epoch_seconds(timestamp.utc_millis as int) * 1000 + subsecond_nanos(
                    timestamp.utc_millis as int,
                ) / 1_000_000 == timestamp.utc_millis
                &&& parse_int(fields[5]) is Ok
                &&& timestamp.offset_seconds == offset_seconds_of(
                    timestamp.utc_millis as int,
                    parse_int(fields[5])->Ok_0 as int,
                )
                &&& timestamp.wf()
            },
            _ => true,
        },
{
}

/// The changes of a decoded delta are its integer fields, exactly. Whenever a
/// line decodes to a delta, each change holds the integer that its field reads
/// as, untouched, beside the scale that it is to be divided by once.
pub proof fn lemma_delta_changes_are_raw_fields(line: Seq<char>)
    requires
        decode_line_spec(line) is Ok,
        decode_line_spec(line)->Ok_0 is Delta,
    ensures
        match decode_line_spec(line)->Ok_0 {
            RecordView::Delta { millis, latitude, longitude, elevation, speed, heading } => {
                let fields = split_fields(line);
                &&& fields.len() >= 7
                &&& parse_int(fields[1]) == Ok::<i64, Fault>(millis)
                &&& parse_int(fields[2]) == Ok::<i64, Fault>(latitude.raw)
                &&& parse_int(fields[3]) == Ok::<i64, Fault>(longitude.raw)
                &&& parse_int(fields[4]) == Ok::<i64, Fault>(elevation.raw)
                &&& latitude.scale == DEGREE_SCALE
                &&& longitude.scale == DEGREE_SCALE
                &&& elevation.scale == ELEVATION_SCALE
                &&& speed == fields[5]
                &&& heading == fields[6]
            },
            _ => true,
        },
{
}

/// A line with an unknown tag is an error that carries the tag, and the
/// message of the error ends with it. No such line is skipped.
pub proof fn lemma_unknown_tag_is_named(line: Seq<char>)
    requires
        tag_of(split_fields(line)[0]) is None,
    ensures
        decode_line_spec(line) == Err::<RecordView, DecodeErrorView>(
            DecodeErrorView::UnknownTag(split_fields(line)[0]),
        ),
        message_of(decode_line_spec(line)->Err_0) == "unrecognized tag "@ + split_fields(line)[0],
{
    crate::text::lemma_split_then_join(line);
}

/// A line always has a first field: decoding a line never misses the tag.
pub proof fn lemma_line_has_a_tag(line: Seq<char>)
    ensures
        decode_line_spec(line) != Err::<RecordView, DecodeErrorView>(DecodeErrorView::MissingTag),
{
    crate::text::lemma_split_then_join(line);
    let fields = split_fields(line);
    match tag_of(fields[0]) {
        Some(Tag::Anchor) => {
            assert(decode_anchor(fields) != Err::<RecordView, DecodeErrorView>(
                DecodeErrorView::MissingTag,
            ));
        },
        Some(Tag::Delta) => {
            assert(decode_delta(fields) != Err::<RecordView, DecodeErrorView>(
                DecodeErrorView::MissingTag,
            ));
        },
        _ => {},
    }
}

/// Why a recording is not a sequence of records: the position of the first
/// line that is not a record, counted from zero, and what is wrong with it.
#[derive(Clone, Debug, PartialEq, Eq)]
pub struct StreamError {
    pub line: usize,
    pub error: DecodeError,
}

/// What a stream error holds, with the decode error taken by its view.
pub struct StreamErrorView {
    pub line: usize,
    pub error: DecodeErrorView,
}

impl View for StreamError {
    type V = StreamErrorView;

    open spec fn view(&self) -> StreamErrorView {
        StreamErrorView { line: self.line, error: self.error@ }
    }
}

/// The views of a sequence of records, in order.
pub open spec fn record_views(records: Seq<Record>) -> Seq<RecordView> {
    Seq::new(records.len(), |i: int| records[i]@)
}

/// What the lines of a recording decode to: the record of every line, in
/// order, or the first line that is not a record.
pub open spec fn decode_stream_spec(lines: Seq<Seq<char>>) -> Result<
    Seq<RecordView>,
    StreamErrorView,
>
    decreases lines.len(),
{
    if lines.len() == 0 {
        Ok(Seq::empty())
    } else {
        match decode_stream_spec(lines.drop_last()) {
            Err(error) => Err(error),
            Ok(records) => match decode_line_spec(lines.last()) {
                Ok(record) => Ok(records.push(record)),
                Err(error) => Err(
                    StreamErrorView { line: (lines.len() - 1) as usize, error },
                ),
            },
        }
    }
}

/// Decodes the lines of a recording, in order, and stops at the first line
/// that is not a record.
pub fn decode_stream(lines: &Vec<String>) -> (out: Result<Vec<Record>, StreamError>)
    ensures
        match out {
            Ok(records) => decode_stream_spec(texts(lines@)) == Ok::<
                Seq<RecordView>,
                StreamErrorView,
            >(record_views(records@)),
            Err(error) => decode_stream_spec(texts(lines@)) == Err::<
                Seq<RecordView>,
                StreamErrorView,
            >(error@),
        },
        out matches Ok(records) ==> forall|i: int|
            0 <= i < records.len() ==> (#[trigger] records[i]).wf(),
{
    let ghost all = texts(lines@);
    let mut records: Vec<Record> = Vec::new();
    let mut i: usize = 0;
    assert(all.take(0) =~= Seq::empty());
    assert(record_views(records@) =~= Seq::empty());
    while i < lines.len()
        invariant
            i <= lines.len(),
            all == texts(lines@),
            decode_stream_spec(all.take(i as int)) == Ok::<Seq<RecordView>, StreamErrorView>(
                record_views(records@),
            ),
            forall|k: int| 0 <= k < records.len() ==> (#[trigger] records[k]).wf(),
        decreases lines.len() - i,
    {
        proof {
            assert(all.take(i + 1).drop_last() =~= all.take(i as int));
            assert(all.take(i + 1).last() == lines[i as int]@);
        }
        match decode_line(lines[i].as_str()) {
            Ok(record) => {
                proof {
                    assert(record_views(records@.push(record)) =~= record_views(records@).push(
                        record@,
                    ));
                }
                records.push(record);
            },
            Err(error) => {
                proof {
                    lemma_stream_error_persists(all, i + 1);
                }
                return Err(StreamError { line: i, error });
            },
        }
        i += 1;
    }
    assert(all.take(i as int) =~= all);
    Ok(records)
}

/// Once decoding has failed on a prefix, it fails in the same way on the whole.
pub proof fn lemma_stream_error_persists(lines: Seq<Seq<char>>, prefix: int)
    requires
        0 <= prefix <= lines.len(),
        decode_stream_spec(lines.take(prefix)) is Err,
    ensures
        decode_stream_spec(lines) == decode_stream_spec(lines.take(prefix)),
    decreases lines.len(),
{
    if prefix == lines.len() {
        assert(lines.take(prefix) =~= lines);
    } else {
        assert(lines.drop_last().take(prefix) =~= lines.take(prefix));
        lemma_stream_error_persists(lines.drop_last(), prefix);
    }
}

/// A recording decodes line by line: it decodes exactly when every line does,
/// to one record per line, and otherwise fails at the first line that does
/// not, with that line's error.
pub proof fn lemma_stream_decodes_line_by_line(lines: Seq<Seq<char>>)
    requires
        lines.len() <= usize::MAX,
    ensures
        match decode_stream_spec(lines) {
            Ok(records) => records.len() == lines.len() && forall|i: int|
                0 <= i < lines.len() ==> decode_line_spec(#[trigger] lines[i]) == Ok::<
                    RecordView,
                    DecodeErrorView,
                >(records[i]),
            Err(error) => error.line < lines.len() && decode_line_spec(lines[error.line as int])
                == Err::<RecordView, DecodeErrorView>(error.error) && forall|i: int|
                0 <= i < error.line ==> decode_line_spec(#[trigger] lines[i]) is Ok,
        },
    decreases lines.len(),
{
    if lines.len() > 0 {
        let earlier = lines.drop_last();
        lemma_stream_decodes_line_by_line(earlier);
        match decode_stream_spec(earlier) {
            Ok(records) => {
                assert forall|i: int| 0 <= i < earlier.len() implies decode_line_spec(
                    #[trigger] lines[i],
                ) is Ok by {
                    assert(earlier[i] == lines[i]);
                }
                match decode_stream_spec(lines) {
                    Ok(all) => {
                        assert forall|i: int| 0 <= i < lines.len() implies decode_line_spec(
                            #[trigger] lines[i],
                        ) == Ok::<RecordView, DecodeErrorView>(all[i]) by {
                            if i < earlier.len() {
                                assert(earlier[i] == lines[i]);
                                assert(all[i] == records[i]);
                            }
                        }
                    },
                    Err(_) => {},
                }
            },
            Err(error) => {
                assert(earlier[error.line as int] == lines[error.line as int]);
                assert forall|i: int| 0 <= i < error.line implies decode_line_spec(
                    #[trigger] lines[i],
                ) is Ok by {
                    assert(earlier[i] == lines[i]);
                }
            },
        }
    }
}

impl Field {
    /// The name of the field, as it is written in messages.
    pub open spec fn name_spec(&self) -> Seq<char> {
        match *self {
            Field::Username => "username"@,
            Field::Version => "version"@,
            Field::AppVersion => "app version"@,
            Field::Timestamp => "timestamp"@,
            Field::Latitude => "latitude"@,
            Field::Longitude => "longitude"@,
            Field::Elevation => "elevation"@,
            Field::LocalTimestamp => "local timestamp"@,
            Field::FirstDatetime => "first datetime"@,
            Field::SecondDatetime => "second datetime"@,
            Field::Milliseconds => "milliseconds"@,
            Field::LatitudeChange => "latitude change"@,
            Field::LongitudeChange => "longitude change"@,
            Field::ElevationChange => "elevation change"@,
            Field::Speed => "speed"@,
            Field::Heading => "heading"@,
        }
    }

    /// The name of the field, as it is written in messages.
    pub fn name(&self) -> (name: &'static str)
        ensures
            name@ == self.name_spec(),
    {
        match self {
            Field::Username => "username",
            Field::Version => "version",
            Field::AppVersion => "app version",
            Field::Timestamp => "timestamp",
            Field::Latitude => "latitude",
            Field::Longitude => "longitude",
            Field::Elevation => "elevation",
            Field::LocalTimestamp => "local timestamp",
            Field::FirstDatetime => "first datetime",
            Field::SecondDatetime => "second datetime",
            Field::Milliseconds => "milliseconds",
            Field::LatitudeChange => "latitude change",
            Field::LongitudeChange => "longitude change",
            Field::ElevationChange => "elevation change",
            Field::Speed => "speed",
            Field::Heading => "heading",
        }
    }
}

/// The message of a decode error: what is wrong and with which tag or field.
pub open spec fn message_of(error: DecodeErrorView) -> Seq<char> {
    match error {
        DecodeErrorView::MissingTag => "missing tag field"@,
        DecodeErrorView::UnknownTag(tag) => "unrecognized tag "@ + tag,
        DecodeErrorView::MissingField(field) => "missing field "@ + field.name_spec(),
        DecodeErrorView::InvalidField(field, _) => "invalid "@ + field.name_spec(),
    }
}

impl DecodeError {
    /// The message of the error. An unknown tag is named in it, and so is a
    /// field that is missing or invalid.
    pub fn message(&self) -> (message: String)
        ensures
            message@ == message_of(self@),
    {
        match self {
            DecodeError::MissingTag => "missing tag field".to_owned(),
            DecodeError::UnknownTag(tag) => "unrecognized tag ".to_owned().concat(tag.as_str()),
            DecodeError::MissingField(field) => "missing field ".to_owned().concat(field.name()),
            DecodeError::InvalidField(field, _) => "invalid ".to_owned().concat(field.name()),
        }
    }

    /// What is wrong with the field, where the error is about a field that
    /// does not hold a value of its type.
    pub fn fault(&self) -> (fault: Option<Fault>)
        ensures
            fault == match self@ {
                DecodeErrorView::InvalidField(_, cause) => Some(cause),
                _ => None,
            },
    {
        match self {
            DecodeError::InvalidField(_, cause) => Some(*cause),
            _ => None,
        }
    }
}

} // verus!
