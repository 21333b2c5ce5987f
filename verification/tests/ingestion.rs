use meter_ingest::ingest::{
    after_insert_failure, drive_write, line_verdict, plan_run, resolve_watermark, FailureAction,
    LineVerdict, StorageError, WriteReport,
};
use meter_ingest::parser::{kind_from_selector, parse, ParseError, Sample, TableKind};
use meter_ingest::timestamp::Timestamp;

const NOON: Timestamp = Timestamp { secs: 1685620800, nanos: 0, offset_secs: 0 };
const ELEVEN: Timestamp = Timestamp { secs: 1685617200, nanos: 0, offset_secs: 0 };

#[test]
fn end_to_end_power_line_accepted() {
    let layout = TableKind::Power.layout();
    let line = b"2023-06-01T12:00:00+00:00,X,Y,42,A,B,C,17";
    let verdict = line_verdict(line, &layout, &ELEVEN);
    assert_eq!(
        verdict,
        LineVerdict::Insert(Sample { sampled: NOON, meter_id: 42, value: 17 })
    );
}

#[test]
fn water_layout_reads_its_own_columns() {
    let line = b"2023-06-01T12:00:00+00:00,a,b,c,d,e,31,99";
    let water = parse(line, &TableKind::Water.layout()).unwrap();
    assert_eq!(water.meter_id, 31);
    assert_eq!(water.value, 99);
    assert_eq!(water.sampled, NOON);
    // The same line under the power layout hits the non-numeric field
    // at index three instead.
    assert_eq!(
        parse(line, &TableKind::Power.layout()),
        Err(ParseError::MalformedInteger)
    );
}

#[test]
fn malformed_timestamp_aborts() {
    let layout = TableKind::Power.layout();
    let line = b"not-a-timestamp,1,2,3";
    assert_eq!(parse(line, &layout), Err(ParseError::MalformedTimestamp));
    assert_eq!(
        line_verdict(line, &layout, &ELEVEN),
        LineVerdict::Abort(ParseError::MalformedTimestamp)
    );
}

#[test]
fn missing_field_reported() {
    let layout = TableKind::Power.layout();
    let line = b"2023-06-01T12:00:00+00:00,5";
    assert_eq!(parse(line, &layout), Err(ParseError::MissingField));
}

#[test]
fn malformed_integer_reported() {
    let layout = TableKind::Power.layout();
    let line = b"2023-06-01T12:00:00+00:00,X,Y,abc,A,B,C,17";
    assert_eq!(parse(line, &layout), Err(ParseError::MalformedInteger));
}

#[test]
fn watermark_boundary_is_inclusive() {
    // A sample stamped exactly at the watermark is accepted …
    assert!(ELEVEN.is_at_or_after(&ELEVEN));
    // … and one a single nanosecond earlier is rejected.
    let just_before = Timestamp { secs: 1685617199, nanos: 999_999_999, offset_secs: 0 };
    assert!(!just_before.is_at_or_after(&ELEVEN));

    let layout = TableKind::Power.layout();
    let at_watermark = b"2023-06-01T11:00:00+00:00,X,Y,7,A,B,C,8";
    assert!(matches!(
        line_verdict(at_watermark, &layout, &ELEVEN),
        LineVerdict::Insert(_)
    ));
    let one_nano_before = b"2023-06-01T10:59:59.999999999+00:00,X,Y,7,A,B,C,8";
    assert_eq!(line_verdict(one_nano_before, &layout, &ELEVEN), LineVerdict::Skip);
}

#[test]
fn tail_reingestion_writes_nothing() {
    // Every line is strictly older than the watermark: the whole input
    // is skipped and no insert is submitted.
    let layout = TableKind::Power.layout();
    let lines: [&[u8]; 3] = [
        b"2023-06-01T09:00:00+00:00,X,Y,1,A,B,C,10",
        b"2023-06-01T10:00:00+00:00,X,Y,2,A,B,C,20",
        b"2023-06-01T10:59:59.999999999+00:00,X,Y,3,A,B,C,30",
    ];
    let mut inserts = 0;
    for line in lines {
        match line_verdict(line, &layout, &ELEVEN) {
            LineVerdict::Insert(_) => inserts += 1,
            LineVerdict::Skip => {}
            LineVerdict::Abort(e) => panic!("unexpected abort: {:?}", e),
        }
    }
    assert_eq!(inserts, 0);
}

#[test]
fn batch_submits_only_accepted_samples() {
    let layout = TableKind::Power.layout();
    let lines: Vec<Vec<u8>> = vec![
        b"2023-06-01T10:00:00+00:00,X,Y,1,A,B,C,10".to_vec(),
        b"2023-06-01T12:00:00+00:00,X,Y,2,A,B,C,20".to_vec(),
        b"2023-06-01T13:00:00+00:00,X,Y,3,A,B,C,30".to_vec(),
    ];
    let (submitted, abort) = plan_run(&lines, &layout, &ELEVEN);
    assert_eq!(abort, None);
    assert_eq!(submitted.len(), 2);
    assert_eq!(submitted[0].meter_id, 2);
    assert_eq!(submitted[1].meter_id, 3);
}

#[test]
fn batch_stops_at_first_parse_error() {
    let layout = TableKind::Power.layout();
    let lines: Vec<Vec<u8>> = vec![
        b"2023-06-01T12:00:00+00:00,X,Y,2,A,B,C,20".to_vec(),
        b"garbage,X,Y,1,A,B,C,10".to_vec(),
        b"2023-06-01T13:00:00+00:00,X,Y,3,A,B,C,30".to_vec(),
    ];
    let (submitted, abort) = plan_run(&lines, &layout, &ELEVEN);
    assert_eq!(abort, Some(ParseError::MalformedTimestamp));
    assert_eq!(submitted.len(), 1);
    assert_eq!(submitted[0].meter_id, 2);
}

#[test]
fn first_insert_success_makes_one_attempt() {
    assert_eq!(
        drive_write(true, false),
        WriteReport { attempts: 1, reconnects: 0, persisted: true, dropped: false }
    );
    assert_eq!(
        drive_write(true, true),
        WriteReport { attempts: 1, reconnects: 0, persisted: true, dropped: false }
    );
}

#[test]
fn bounded_retry_persists_exactly_once() {
    // First insert fails, the single post-reconnect retry succeeds.
    assert_eq!(
        drive_write(false, true),
        WriteReport { attempts: 2, reconnects: 1, persisted: true, dropped: false }
    );
    assert_eq!(after_insert_failure(false), FailureAction::ReconnectAndRetry);
}

#[test]
fn retry_exhaustion_drops_and_continues() {
    // Both inserts fail: the sample is dropped after exactly two
    // attempts and one reconnect, and the caller moves on.
    assert_eq!(
        drive_write(false, false),
        WriteReport { attempts: 2, reconnects: 1, persisted: false, dropped: true }
    );
    assert_eq!(after_insert_failure(true), FailureAction::DropAndContinue);
}

#[test]
fn watermark_from_latest_sample() {
    let latest = Sample { sampled: NOON, meter_id: 1, value: 2 };
    assert_eq!(resolve_watermark(Ok(Some(latest))).unwrap(), NOON);
}

#[test]
fn empty_table_is_fatal() {
    assert!(matches!(resolve_watermark(Ok(None)), Err(StorageError::NoRows)));
}

#[test]
fn query_failure_carries_driver_text() {
    let r = resolve_watermark(Err("connection reset".to_string()));
    match r {
        Err(StorageError::QueryFailed(m)) => assert_eq!(m, "connection reset"),
        other => panic!("unexpected: {:?}", other),
    }
}

#[test]
fn selector_resolves_table_kind() {
    assert_eq!(kind_from_selector(b"water"), TableKind::Water);
    assert_eq!(kind_from_selector(b"power"), TableKind::Power);
    // Unrecognized selectors fall back to the default.
    assert_eq!(kind_from_selector(b"gas"), TableKind::Power);
    assert_eq!(kind_from_selector(b"WATER"), TableKind::Power);
    assert_eq!(kind_from_selector(b""), TableKind::Power);
}

#[test]
fn table_names() {
    assert_eq!(TableKind::Power.name(), "power");
    assert_eq!(TableKind::Water.name(), "water");
}

#[test]
fn rfc3339_offset_preserved_not_normalized() {
    // The same instant as NOON, written with a +02:00 offset: the
    // instant matches and the offset is kept.
    let layout = TableKind::Power.layout();
    let line = b"2023-06-01T14:00:00+02:00,X,Y,1,A,B,C,2";
    let sample = parse(line, &layout).unwrap();
    assert_eq!(
        sample.sampled,
        Timestamp { secs: 1685620800, nanos: 0, offset_secs: 7200 }
    );
    // Instant-based comparison: equal instants compare as equal even
    // across offsets.
    assert!(sample.sampled.is_at_or_after(&NOON));
    assert!(NOON.is_at_or_after(&sample.sampled));
}

#[test]
fn rfc3339_garbage_is_malformed() {
    let layout = TableKind::Power.layout();
    for line in [
        b",X,Y,1,A,B,C,2".as_slice(),
        b"2023-06-01,X,Y,1,A,B,C,2".as_slice(),
        b"2023-06-01T12:00:00,X,Y,1,A,B,C,2".as_slice(),
        b"2023-13-01T12:00:00+00:00,X,Y,1,A,B,C,2".as_slice(),
    ] {
        assert_eq!(parse(line, &layout), Err(ParseError::MalformedTimestamp));
    }
}
