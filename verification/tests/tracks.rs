use chrono::{DateTime, FixedOffset, TimeZone, Utc};
use gpslog::number::FloatLiteral;
use gpslog::pipeline::{convert, Conversion, ConvertError};
use gpslog::record::{decode_line, DecodeError, FixedPoint, Record, StreamError};
use gpslog::summary::{summarize, Summary};
use gpslog::time::Timestamp;
use gpslog::track::{
    reconstruct, ApplyError, Coordinate, ReconstructError, Reconstructor, TrackPoint,
};

const ANCHOR_LINE: &str =
    "H,1700000000000,10.0,20.0,5.0,1700003600000,2023-11-14T22:13:20.0,2023-11-14T23:13:20.0";
const DELTA_LINE: &str = "D,1000,500000,-250000,10,2.5,90.0";

fn literal(text: &str) -> FloatLiteral {
    FloatLiteral::parse(text).unwrap()
}

fn value(coordinate: &Coordinate) -> f64 {
    coordinate.origin.as_str().parse::<f64>().unwrap()
        + coordinate.change.raw as f64 / coordinate.change.scale as f64
}

fn number(literal: &FloatLiteral) -> f64 {
    literal.as_str().parse::<f64>().unwrap()
}

fn owned(lines: &[&str]) -> Vec<String> {
    lines.iter().map(|l| l.to_string()).collect()
}

fn records(lines: &[&str]) -> Vec<Record> {
    lines.iter().map(|l| decode_line(l).unwrap()).collect()
}

fn anchor(utc_millis: i64, lat: &str, lon: &str, ele: &str) -> Record {
    Record::Anchor {
        timestamp: Timestamp { utc_millis, offset_seconds: 0 },
        latitude: literal(lat),
        longitude: literal(lon),
        elevation: literal(ele),
    }
}

fn delta(millis: i64, lat: i64, lon: i64, ele: i64, speed: &str, heading: &str) -> Record {
    Record::Delta {
        millis,
        latitude: FixedPoint { raw: lat, scale: 1_000_000 },
        longitude: FixedPoint { raw: lon, scale: 1_000_000 },
        elevation: FixedPoint { raw: ele, scale: 10 },
        speed: literal(speed),
        heading: literal(heading),
    }
}

#[test]
fn anchor_and_delta_give_one_point() {
    let conversion = convert(&owned(&[ANCHOR_LINE, DELTA_LINE])).unwrap();
    assert_eq!(conversion.records.len(), 2);
    assert_eq!(conversion.points.len(), 1);
    let point = &conversion.points[0];
    assert_eq!(value(&point.latitude), 10.5);
    assert_eq!(value(&point.longitude), 19.75);
    assert_eq!(value(&point.elevation), 6.0);
    assert_eq!(number(&point.speed), 2.5);
    assert_eq!(number(&point.course), 90.0);
    assert_eq!(point.time.utc_millis, 1_700_000_001_000);
    assert_eq!(point.time.offset_seconds, 3600);
    let zone = FixedOffset::east_opt(point.time.offset_seconds).unwrap();
    let time = zone.timestamp_millis_opt(point.time.utc_millis).unwrap();
    let start = zone.timestamp_millis_opt(1_700_000_000_000).unwrap();
    assert_eq!(time, start + chrono::TimeDelta::try_seconds(1).unwrap());
    assert_eq!(time.to_rfc3339(), "2023-11-14T23:13:21+01:00");
    assert_eq!(
        conversion.summary,
        Summary::Speeds { records: 2, speeds: vec![literal("2.5")] }
    );
}

#[test]
fn point_holds_anchor_and_delta_in_parts() {
    let points = reconstruct(&records(&[ANCHOR_LINE, DELTA_LINE])).unwrap();
    assert_eq!(
        points,
        vec![TrackPoint {
            time: Timestamp { utc_millis: 1_700_000_001_000, offset_seconds: 3600 },
            latitude: Coordinate {
                origin: literal("10.0"),
                change: FixedPoint { raw: 500_000, scale: 1_000_000 },
            },
            longitude: Coordinate {
                origin: literal("20.0"),
                change: FixedPoint { raw: -250_000, scale: 1_000_000 },
            },
            elevation: Coordinate {
                origin: literal("5.0"),
                change: FixedPoint { raw: 10, scale: 10 },
            },
            speed: literal("2.5"),
            course: literal("90.0"),
        }]
    );
    assert_eq!(points[0].time.offset_seconds, 3600);
}

#[test]
fn deltas_do_not_accumulate() {
    let stream = vec![
        anchor(1_000_000, "10.0", "20.0", "5.0"),
        delta(1000, 500_000, -250_000, 10, "2.5", "90.0"),
        delta(2000, 100_000, 100_000, -20, "3.5", "180.0"),
        delta(1000, 500_000, -250_000, 10, "2.5", "90.0"),
    ];
    let points = reconstruct(&stream).unwrap();
    assert_eq!(points.len(), 3);
    assert_eq!(value(&points[0].latitude), 10.5);
    assert_eq!(value(&points[1].latitude), 10.1);
    assert_eq!(value(&points[2].latitude), 10.5);
    assert_eq!(value(&points[1].longitude), 20.1);
    assert_eq!(value(&points[1].elevation), 3.0);
    assert_eq!(points[0].time.utc_millis, 1_001_000);
    assert_eq!(points[1].time.utc_millis, 1_002_000);
    assert_eq!(points[2].time.utc_millis, 1_001_000);
    assert_eq!(points[0], points[2]);
    assert_eq!(points[0].latitude, points[2].latitude);
    assert_eq!(points[0].speed, points[2].speed);
    assert!(points[0] != points[1]);
}

#[test]
fn equal_deltas_differ_only_in_time() {
    let stream = vec![
        anchor(0, "-33.5", "151.25", "12"),
        delta(1000, 7, -7, 1, "1.5", "45"),
        delta(9000, 7, -7, 1, "1.5", "45"),
    ];
    let points = reconstruct(&stream).unwrap();
    assert_eq!(points[0].latitude, points[1].latitude);
    assert_eq!(points[0].longitude, points[1].longitude);
    assert_eq!(points[0].elevation, points[1].elevation);
    assert_eq!(points[0].speed, points[1].speed);
    assert_eq!(points[0].course, points[1].course);
    assert_eq!(points[0].time.utc_millis, 1000);
    assert_eq!(points[1].time.utc_millis, 9000);
}

#[test]
fn a_later_anchor_replaces_the_earlier_one() {
    let stream = vec![
        anchor(0, "1.0", "2.0", "3.0"),
        delta(10, 1_000_000, 0, 0, "1", "0"),
        anchor(5000, "50.0", "60.0", "70.0"),
        delta(10, 1_000_000, 0, 0, "1", "0"),
    ];
    let points = reconstruct(&stream).unwrap();
    assert_eq!(points.len(), 2);
    assert_eq!(value(&points[0].latitude), 2.0);
    assert_eq!(value(&points[1].latitude), 51.0);
    assert_eq!(value(&points[1].longitude), 60.0);
    assert_eq!(value(&points[1].elevation), 70.0);
    assert_eq!(points[0].time.utc_millis, 10);
    assert_eq!(points[1].time.utc_millis, 5010);
}

#[test]
fn anchors_alone_give_no_point() {
    let stream = vec![anchor(0, "1.0", "2.0", "3.0"), anchor(1, "1.0", "2.0", "3.0")];
    assert_eq!(reconstruct(&stream), Ok(Vec::new()));
}

#[test]
fn other_records_are_inert() {
    let stream = records(&["U,alice", ANCHOR_LINE, "V,1", "I,a,b", DELTA_LINE, "A,2"]);
    let plain = records(&[ANCHOR_LINE, DELTA_LINE]);
    assert_eq!(reconstruct(&stream), reconstruct(&plain));
    assert_eq!(reconstruct(&records(&["U,alice", "V,1", "A,2", "I"])), Ok(Vec::new()));
}

#[test]
fn delta_without_anchor_is_an_error() {
    let stream = vec![delta(1000, 1, 1, 1, "1", "1")];
    assert_eq!(
        reconstruct(&stream),
        Err(ReconstructError { record: 0, cause: ApplyError::MissingAnchor })
    );
    let stream = records(&["U,alice", "I,x", DELTA_LINE, ANCHOR_LINE, DELTA_LINE]);
    assert_eq!(
        reconstruct(&stream),
        Err(ReconstructError { record: 2, cause: ApplyError::MissingAnchor })
    );
    assert_eq!(
        ApplyError::MissingAnchor.message(),
        "delta record without a preceding anchor"
    );
}

#[test]
fn point_off_the_calendar_is_an_error() {
    let last = DateTime::<Utc>::MAX_UTC.timestamp_millis();
    let stream = vec![
        anchor(last - 5000, "1.0", "2.0", "3.0"),
        delta(4000, 0, 0, 0, "1", "1"),
        delta(6000, 0, 0, 0, "1", "1"),
    ];
    assert_eq!(
        reconstruct(&stream),
        Err(ReconstructError { record: 2, cause: ApplyError::TimeOutOfRange })
    );
    let stream = vec![anchor(0, "1.0", "2.0", "3.0"), delta(i64::MAX, 0, 0, 0, "1", "1")];
    assert_eq!(
        reconstruct(&stream),
        Err(ReconstructError { record: 1, cause: ApplyError::TimeOutOfRange })
    );
    assert_eq!(ApplyError::TimeOutOfRange.message(), "time of the point is out of range");
}

#[test]
fn empty_recording_gives_empty_track_and_no_data() {
    assert_eq!(reconstruct(&Vec::new()), Ok(Vec::new()));
    assert_eq!(summarize(&Vec::new()), Summary::NoData { records: 0 });
    assert_eq!(
        convert(&Vec::new()),
        Ok(Conversion {
            records: Vec::new(),
            summary: Summary::NoData { records: 0 },
            points: Vec::new(),
        })
    );
}

#[test]
fn summary_lists_the_speeds_of_the_deltas() {
    let stream = vec![
        Record::User("alice".to_string()),
        anchor(0, "1.0", "2.0", "3.0"),
        delta(1, 0, 0, 0, "2.5", "1"),
        delta(2, 0, 0, 0, "7.25", "1"),
        Record::Device(Vec::new()),
        delta(3, 0, 0, 0, "0.5", "1"),
    ];
    let summary = summarize(&stream);
    assert_eq!(
        summary,
        Summary::Speeds {
            records: 6,
            speeds: vec![literal("2.5"), literal("7.25"), literal("0.5")],
        }
    );
    match summary {
        Summary::Speeds { speeds, .. } => {
            let fastest = speeds.iter().map(number).fold(f64::MIN, f64::max);
            assert_eq!(fastest, 7.25);
        }
        other => panic!("no speeds: {:?}", other),
    }
}

#[test]
fn summary_without_delta_reports_no_data() {
    let stream = records(&["U,alice", ANCHOR_LINE, "V,1"]);
    assert_eq!(summarize(&stream), Summary::NoData { records: 3 });
    let stream = vec![delta(1, 0, 0, 0, "2.5", "1")];
    assert_eq!(summarize(&stream), Summary::Speeds { records: 1, speeds: vec![literal("2.5")] });
}

#[test]
fn reconstructor_steps_through_the_records() {
    let mut fold = Reconstructor::new();
    assert!(fold.anchor().is_none());
    assert_eq!(fold.len(), 0);
    assert_eq!(fold.step(&Record::User("alice".to_string())), Ok(()));
    assert!(fold.anchor().is_none());
    assert_eq!(fold.step(&delta(1, 0, 0, 0, "1", "1")), Err(ApplyError::MissingAnchor));
    assert!(fold.anchor().is_none());
    assert_eq!(fold.len(), 0);
    assert_eq!(fold.step(&anchor(100, "1.0", "2.0", "3.0")), Ok(()));
    assert_eq!(fold.len(), 0);
    let seed = fold.anchor().unwrap().clone();
    assert_eq!(seed.time.utc_millis, 100);
    assert_eq!(value(&seed.latitude), 1.0);
    assert_eq!(value(&seed.longitude), 2.0);
    assert_eq!(value(&seed.elevation), 3.0);
    assert_eq!(number(&seed.speed), 0.0);
    assert_eq!(number(&seed.course), 0.0);
    assert_eq!(seed.latitude.change, FixedPoint { raw: 0, scale: 1_000_000 });
    assert_eq!(seed.elevation.change, FixedPoint { raw: 0, scale: 10 });
    assert_eq!(fold.step(&delta(5, 1, 2, 3, "4", "5")), Ok(()));
    assert_eq!(fold.len(), 1);
    assert_eq!(fold.anchor().unwrap(), &seed);
    assert_eq!(fold.step(&delta(i64::MAX, 1, 2, 3, "4", "5")), Err(ApplyError::TimeOutOfRange));
    assert_eq!(fold.len(), 1);
    assert_eq!(fold.anchor().unwrap(), &seed);
    let points = fold.finish();
    assert_eq!(points.len(), 1);
    assert_eq!(points[0].time.utc_millis, 105);
    assert_eq!(points[0].latitude.change.raw, 1);
    assert_eq!(points[0].longitude.change.raw, 2);
    assert_eq!(points[0].elevation.change.raw, 3);
    assert_eq!(number(&points[0].speed), 4.0);
    assert_eq!(number(&points[0].course), 5.0);
}

#[test]
fn displaced_to_follows_the_given_instant() {
    let seed = TrackPoint::at_anchor(
        Timestamp { utc_millis: 100, offset_seconds: 60 },
        &literal("1.0"),
        &literal("2.0"),
        &literal("3.0"),
    );
    let change = FixedPoint { raw: 9, scale: 1_000_000 };
    let rise = FixedPoint { raw: -4, scale: 10 };
    let made = seed
        .displaced_to(50, Some(150), change, change, rise, &literal("6"), &literal("7"))
        .unwrap();
    assert_eq!(made.time.utc_millis, 150);
    assert_eq!(made.time.offset_seconds, 60);
    assert_eq!(made.latitude, Coordinate { origin: literal("1.0"), change });
    assert_eq!(made.longitude, Coordinate { origin: literal("2.0"), change });
    assert_eq!(made.elevation, Coordinate { origin: literal("3.0"), change: rise });
    assert_eq!(made.speed, literal("6"));
    assert_eq!(made.course, literal("7"));
    assert_eq!(
        seed.displaced_to(50, None, change, change, rise, &literal("6"), &literal("7")),
        Err(ApplyError::TimeOutOfRange)
    );
    assert_eq!(
        seed.displaced_to(50, Some(100), change, change, rise, &literal("6"), &literal("7")),
        Err(ApplyError::TimeOutOfRange)
    );
}

#[test]
fn convert_reports_a_bad_line_before_a_bad_track() {
    assert_eq!(
        convert(&owned(&[DELTA_LINE, "X,1,2"])),
        Err(ConvertError::Decode(StreamError {
            line: 1,
            error: DecodeError::UnknownTag("X".to_string()),
        }))
    );
    assert_eq!(
        convert(&owned(&["U,alice", DELTA_LINE])),
        Err(ConvertError::Reconstruct(ReconstructError {
            record: 1,
            cause: ApplyError::MissingAnchor,
        }))
    );
}

#[test]
fn convert_keeps_records_summary_and_points() {
    let text = ["U,alice", ANCHOR_LINE, DELTA_LINE, "D,2000,0,0,0,4.5,180"];
    let conversion = convert(&owned(&text)).unwrap();
    assert_eq!(conversion.records, records(&text));
    assert_eq!(
        conversion.summary,
        Summary::Speeds { records: 4, speeds: vec![literal("2.5"), literal("4.5")] }
    );
    assert_eq!(Ok(conversion.points), reconstruct(&conversion.records));
}
