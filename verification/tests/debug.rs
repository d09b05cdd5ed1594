use jamsession::db::TraceDirection;
use jamsession::debug::{
    ago_parts, content_type, effective_limit, midnight_today_utc, parse_ago, since_ago, parse_query, parse_since, percent_decode,
    query_param, route_request, trace_query_from_params, AgoError, AgoUnit, DebugFilters,
    QueryError, Route, Timestamp,
};
use jamsession::number::IntErrorKind;

fn to_rfc3339(t: Timestamp) -> String {
    chrono::DateTime::from_timestamp(t.secs, t.nanos).unwrap().to_rfc3339()
}

#[test]
fn parses_trace_query_params() {
    let query = trace_query_from_params(
        &parse_query("after_id=4&session=sess-1&method=session%2Fprompt&dir=daemon_to_agent"),
        DebugFilters::default(),
    )
    .unwrap();

    assert_eq!(query.after_id, Some(4));
    assert_eq!(query.session_id.as_deref(), Some("sess-1"));
    assert_eq!(query.method.as_deref(), Some("session/prompt"));
    assert_eq!(query.dir, Some(TraceDirection::DaemonToAgent));
}

#[test]
fn parses_absolute_since() {
    let since = parse_since("2026-06-30T10:00:00Z").unwrap();
    assert_eq!(to_rfc3339(since), "2026-06-30T10:00:00+00:00");
}

#[test]
fn embeds_debug_ui_assets() {
    assert_eq!(content_type("styles.css"), "text/css; charset=utf-8");
    assert_eq!(content_type("app.js"), "text/javascript; charset=utf-8");
}

#[test]
fn content_type_by_extension() {
    assert_eq!(content_type("index.html"), "text/html; charset=utf-8");
    assert_eq!(content_type("data.json"), "application/json");
    assert_eq!(content_type("logo.svg"), "image/svg+xml");
    assert_eq!(content_type("archive.tar.gz"), "application/octet-stream");
    assert_eq!(content_type("README"), "application/octet-stream");
    assert_eq!(content_type("a.b.css"), "text/css; charset=utf-8");
}

#[test]
fn percent_decoding() {
    assert_eq!(percent_decode("session%2Fprompt").as_deref(), Some("session/prompt"));
    assert_eq!(percent_decode("a+b").as_deref(), Some("a b"));
    assert_eq!(percent_decode("plain").as_deref(), Some("plain"));
    // A `%` too close to the end is kept as it is.
    assert_eq!(percent_decode("50%").as_deref(), Some("50%"));
    assert_eq!(percent_decode("%4").as_deref(), Some("%4"));
    // Bad hex, and bytes that are not UTF-8, fail.
    assert_eq!(percent_decode("%zz1"), None);
    assert_eq!(percent_decode("%ff%fe"), None);
    // A multi-byte character.
    assert_eq!(percent_decode("%C3%A9").as_deref(), Some("é"));
}

#[test]
fn query_string_pairs() {
    let pairs = parse_query("a=1&&b&c=x%20y&a=2");
    assert_eq!(
        pairs,
        vec![
            ("a".to_string(), "1".to_string()),
            ("b".to_string(), "".to_string()),
            ("c".to_string(), "x y".to_string()),
            ("a".to_string(), "2".to_string()),
        ]
    );
    // The last value of a repeated key wins, as when collected into a map.
    assert_eq!(query_param(&pairs, "a").as_deref(), Some("2"));
    assert_eq!(query_param(&pairs, "z"), None);
    // A pair that does not decode is dropped.
    assert_eq!(parse_query("x=%ff&y=1"), vec![("y".to_string(), "1".to_string())]);
}

#[test]
fn trace_query_uses_filters_when_params_are_absent() {
    let filters = DebugFilters {
        session_id: Some("from-cli".to_string()),
        since: Some(Timestamp { secs: 100, nanos: 0 }),
    };
    let q = trace_query_from_params(&parse_query("limit=7"), filters).unwrap();
    assert_eq!(q.session_id.as_deref(), Some("from-cli"));
    assert_eq!(q.since, Some(Timestamp { secs: 100, nanos: 0 }));
    assert_eq!(q.limit, Some(7));
    assert_eq!(q.after_id, None);
    assert_eq!(q.method, None);
    assert_eq!(q.dir, None);
}

#[test]
fn trace_query_params_override_filters() {
    let filters = DebugFilters {
        session_id: Some("from-cli".to_string()),
        since: Some(Timestamp { secs: 100, nanos: 0 }),
    };
    let q = trace_query_from_params(
        &parse_query("session=s2&since=1970-01-01T00:01:00Z&after_id=x&method="),
        filters,
    )
    .unwrap();
    assert_eq!(q.session_id.as_deref(), Some("s2"));
    assert_eq!(q.since, Some(Timestamp { secs: 60, nanos: 0 }));
    // Unparsable numbers and empty values are ignored.
    assert_eq!(q.after_id, None);
    assert_eq!(q.method, None);
}

#[test]
fn trace_query_errors() {
    match trace_query_from_params(&parse_query("dir=sideways"), DebugFilters::default()) {
        Err(QueryError::InvalidDirection(e)) => assert_eq!(e.0, "sideways"),
        other => panic!("expected InvalidDirection, got {other:?}"),
    }
    match trace_query_from_params(&parse_query("since=yesterday"), DebugFilters::default()) {
        Err(QueryError::InvalidSince(_)) => {}
        other => panic!("expected InvalidSince, got {other:?}"),
    }
    // An empty `dir` or `since` is no filter at all.
    assert!(trace_query_from_params(&parse_query("dir=&since="), DebugFilters::default()).is_ok());
}

#[test]
fn trace_limits() {
    assert_eq!(effective_limit(None), 500);
    assert_eq!(effective_limit(Some(20)), 20);
    assert_eq!(effective_limit(Some(5000)), 5000);
    assert_eq!(effective_limit(Some(9000)), 5000);
}

#[test]
fn since_with_offset_is_read_as_utc() {
    let t = parse_since("2026-06-30T12:00:00+02:00").unwrap();
    assert_eq!(to_rfc3339(t), "2026-06-30T10:00:00+00:00");
    assert!(parse_since("not a date").is_err());
}

#[test]
fn ago_durations() {
    assert_eq!(ago_parts("30m"), Ok((30, AgoUnit::Minutes)));
    assert_eq!(ago_parts("2h"), Ok((2, AgoUnit::Hours)));
    assert_eq!(ago_parts("1d"), Ok((1, AgoUnit::Days)));
    assert_eq!(ago_parts("-5m"), Ok((-5, AgoUnit::Minutes)));
    assert_eq!(ago_parts("5s"), Err(AgoError::InvalidUnit));
    assert_eq!(ago_parts("xh"), Err(AgoError::InvalidAmount(IntErrorKind::InvalidDigit)));
    assert_eq!(ago_parts("h"), Err(AgoError::InvalidAmount(IntErrorKind::Empty)));
    assert_eq!(ago_parts(""), Err(AgoError::InvalidAmount(IntErrorKind::Empty)));
    // The amount is checked before the unit.
    assert_eq!(ago_parts("xs"), Err(AgoError::InvalidAmount(IntErrorKind::InvalidDigit)));
}

const NOW: Timestamp = Timestamp { secs: 1_782_813_600, nanos: 250 };

#[test]
fn ago_counts_back_from_now() {
    assert_eq!(parse_ago("30m", NOW), Ok(Timestamp { secs: 1_782_813_600 - 1_800, nanos: 250 }));
    assert_eq!(parse_ago("2h", NOW), Ok(Timestamp { secs: 1_782_813_600 - 7_200, nanos: 250 }));
    assert_eq!(parse_ago("1d", NOW), Ok(Timestamp { secs: 1_782_813_600 - 86_400, nanos: 250 }));
    assert_eq!(parse_ago("-5m", NOW), Ok(Timestamp { secs: 1_782_813_600 + 300, nanos: 250 }));
    assert_eq!(parse_ago("0d", NOW), Ok(NOW));
    assert_eq!(parse_ago("5s", NOW), Err(AgoError::InvalidUnit));
    assert_eq!(parse_ago("xm", NOW), Err(AgoError::InvalidAmount(IntErrorKind::InvalidDigit)));
    assert_eq!(parse_ago("m", NOW), Err(AgoError::InvalidAmount(IntErrorKind::Empty)));
    assert_eq!(parse_ago("", NOW), Err(AgoError::InvalidAmount(IntErrorKind::Empty)));
    // A duration beyond chrono's bounds, or an instant before its first date.
    assert_eq!(parse_ago("9223372036854775807m", NOW), Err(AgoError::OutOfRange));
    assert_eq!(parse_ago("100000000d", NOW), Err(AgoError::OutOfRange));
    assert_eq!(
        to_rfc3339(parse_ago("30m", Timestamp { secs: 1_782_813_600, nanos: 0 }).unwrap()),
        "2026-06-30T09:30:00+00:00"
    );
}

#[test]
fn since_ago_by_unit() {
    assert_eq!(since_ago(NOW, 3, AgoUnit::Minutes), Some(Timestamp { secs: 1_782_813_420, nanos: 250 }));
    assert_eq!(since_ago(NOW, 3, AgoUnit::Hours), Some(Timestamp { secs: 1_782_802_800, nanos: 250 }));
    assert_eq!(since_ago(NOW, 3, AgoUnit::Days), Some(Timestamp { secs: 1_782_554_400, nanos: 250 }));
    assert_eq!(since_ago(NOW, i64::MIN, AgoUnit::Hours), None);
}

#[test]
fn midnight_of_the_current_day() {
    // 2026-06-30T10:00:00.000000250Z
    let midnight = midnight_today_utc(NOW);
    assert_eq!(midnight, Timestamp { secs: 1_782_777_600, nanos: 0 });
    assert_eq!(to_rfc3339(midnight), "2026-06-30T00:00:00+00:00");
    assert_eq!(midnight_today_utc(Timestamp { secs: 1_782_777_600, nanos: 0 }), midnight);
    assert_eq!(midnight_today_utc(Timestamp { secs: 0, nanos: 7 }), Timestamp { secs: 0, nanos: 0 });
    // Before the epoch the day still starts at its own midnight.
    assert_eq!(midnight_today_utc(Timestamp { secs: -1, nanos: 0 }), Timestamp { secs: -86_400, nanos: 0 });
}

#[test]
fn routes_requests() {
    match route_request("GET /api/traces?session=sess-1 HTTP/1.1\r\nhost: localhost\r\n\r\n") {
        Route::Traces { query } => assert_eq!(query, "session=sess-1"),
        other => panic!("expected traces, got {other:?}"),
    }
    match route_request("GET / HTTP/1.1\r\n\r\n") {
        Route::Asset { path } => assert_eq!(path, "index.html"),
        other => panic!("expected index, got {other:?}"),
    }
    match route_request("GET /index.html HTTP/1.1\r\n") {
        Route::Asset { path } => assert_eq!(path, "index.html"),
        other => panic!("expected index, got {other:?}"),
    }
    match route_request("GET /app.js HTTP/1.1\r\n") {
        Route::Asset { path } => assert_eq!(path, "app.js"),
        other => panic!("expected asset, got {other:?}"),
    }
    assert!(matches!(route_request("POST / HTTP/1.1\r\n"), Route::MethodNotAllowed));
    assert!(matches!(route_request("GET nowhere HTTP/1.1\r\n"), Route::NotFound));
    assert!(matches!(route_request("GET"), Route::NotFound));
    assert!(matches!(route_request(""), Route::Ignore));
}
