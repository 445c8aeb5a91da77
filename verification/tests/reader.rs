use actix_web_logs_reader::level::{level_ordinal, threshold_ordinal};
use actix_web_logs_reader::record::{decode_line, process_line, LogRecord};
use actix_web_logs_reader::render::format_msg;

fn chars(s: &str) -> Vec<char> {
    s.chars().collect()
}

fn msg_plain(m: &str) -> String {
    format_msg(&chars(m), false).into_iter().collect()
}

fn msg_color(m: &str) -> String {
    format_msg(&chars(m), true).into_iter().collect()
}

fn rec(level: &str) -> LogRecord {
    LogRecord {
        time: String::from("2021-01-01T00:00:00Z"),
        level: String::from(level),
        file: None,
        line: None,
        msg: String::from("x"),
    }
}

const NAMES: [&str; 6] = ["TRACE", "DEBUG", "INFO", "WARN", "ERROR", "FATAL"];

#[test]
fn filter_all_level_pairs() {
    for (li, l) in NAMES.iter().enumerate() {
        for (ti, t) in NAMES.iter().enumerate() {
            assert_eq!(rec(l).display_record(t), li >= ti, "level {} threshold {}", l, t);
        }
    }
}

#[test]
fn filter_is_case_insensitive_on_threshold() {
    assert!(!rec("INFO").display_record("warn"));
    assert!(rec("ERROR").display_record("warn"));
    assert!(rec("INFO").display_record("info"));
}

#[test]
fn filter_is_case_sensitive_on_record_level() {
    // a lowercase record level is unrecognized, hence ordinal 0
    assert!(!rec("info").display_record("INFO"));
    assert!(rec("info").display_record("TRACE"));
}

#[test]
fn unknown_level_is_ordinal_zero() {
    assert_eq!(level_ordinal("SILLY"), 0);
    assert_eq!(level_ordinal("TRACE"), 0);
    assert_eq!(level_ordinal("FATAL"), 5);
    // an unrecognized level passes a zero threshold, like TRACE
    assert!(rec("SILLY").display_record("TRACE"));
    assert!(rec("SILLY").display_record("SILLY"));
    assert!(!rec("SILLY").display_record("DEBUG"));
}

#[test]
fn unknown_threshold_shows_everything() {
    assert_eq!(threshold_ordinal("NOPE"), 0);
    for l in NAMES.iter() {
        assert!(rec(l).display_record("NOPE"));
    }
}

#[test]
fn minimal_record_round_trip() {
    let r = decode_line("{\"time\":\"2021-01-01T00:00:00Z\",\"level\":\"INFO\",\"msg\":\"hi\"}")
        .expect("decodes");
    assert_eq!(r.time, "2021-01-01T00:00:00Z");
    assert_eq!(r.level, "INFO");
    assert!(r.file.is_none());
    assert!(r.line.is_none());
    assert_eq!(r.msg, "hi");
    assert_eq!(r.format(false), "2021-01-01T00:00:00Z  INFO | hi\n");
}

#[test]
fn record_with_file_renders_file_segment() {
    let r = decode_line(
        "{\"time\":\"2021-01-01T00:00:00Z\",\"level\":\"INFO\",\"msg\":\"hi\",\"file\":\"a.rs\"}",
    )
    .expect("decodes");
    assert_eq!(r.format(false), "2021-01-01T00:00:00Z  INFO | a.rs | hi\n");
}

#[test]
fn record_with_file_and_line_renders_both() {
    let r = decode_line(
        "{\"time\":\"2021-01-01T00:00:00Z\",\"level\":\"WARN\",\"msg\":\"hi\",\"file\":\"a.rs\",\"line\":42}",
    )
    .expect("decodes");
    assert_eq!(r.line, Some(42));
    assert_eq!(r.format(false), "2021-01-01T00:00:00Z  WARN | a.rs:42 | hi\n");
}

#[test]
fn line_without_file_renders_no_segment() {
    let r = decode_line(
        "{\"time\":\"2021-01-01T00:00:00Z\",\"level\":\"INFO\",\"msg\":\"hi\",\"line\":7}",
    )
    .expect("decodes");
    assert_eq!(r.format(false), "2021-01-01T00:00:00Z  INFO | hi\n");
}

const ACCESS: &str = "request_id=abc, client_ip_address=1.2.3.4, request_path=\"GET /foo HTTP/1.1\", status_code=200, elapsed_seconds=0.015, user_agent=\"curl/7\"";

#[test]
fn access_log_message_decomposes() {
    assert_eq!(
        msg_plain(ACCESS),
        "200 |     GET | /foo | HTTP/1.1 | abc |      0.015s | 1.2.3.4 | curl/7"
    );
}

#[test]
fn access_log_success_status_is_green_bold() {
    let out = msg_color(ACCESS);
    assert!(out.starts_with("\u{1b}[1;32m200\u{1b}[0m | "));
    assert!(out.contains("\u{1b}[32m    GET\u{1b}[0m"));
}

#[test]
fn status_brackets_get_distinct_colors() {
    let mk = |code: &str| {
        format!(
            "request_id=a, client_ip_address=b, request_path=\"GET / H\", status_code={}, elapsed_seconds=1, user_agent=\"u\"",
            code
        )
    };
    assert!(msg_color(&mk("101")).starts_with("\u{1b}[1;36m101\u{1b}[0m"));
    assert!(msg_color(&mk("204")).starts_with("\u{1b}[1;32m204\u{1b}[0m"));
    assert!(msg_color(&mk("301")).starts_with("\u{1b}[1;35m301\u{1b}[0m"));
    assert!(msg_color(&mk("404")).starts_with("\u{1b}[1;33m404\u{1b}[0m"));
    assert!(msg_color(&mk("503")).starts_with("\u{1b}[1;31m503\u{1b}[0m"));
}

#[test]
fn out_of_range_status_falls_back_to_raw_message() {
    let m = "request_id=abc, client_ip_address=1.2.3.4, request_path=\"GET /foo HTTP/1.1\", status_code=999, elapsed_seconds=0.015, user_agent=\"curl/7\"";
    assert_eq!(msg_plain(m), m);
}

#[test]
fn status_range_boundaries() {
    let mk = |code: &str| {
        format!(
            "request_id=a, client_ip_address=b, request_path=\"p q r\", status_code={}, elapsed_seconds=1, user_agent=\"u\"",
            code
        )
    };
    assert!(msg_plain(&mk("100")).starts_with("100 | "));
    assert!(msg_plain(&mk("599")).starts_with("599 | "));
    assert_eq!(msg_plain(&mk("099")), mk("099"));
    assert_eq!(msg_plain(&mk("600")), mk("600"));
    assert_eq!(msg_plain(&mk("20x")), mk("20x"));
}

#[test]
fn invalid_elapsed_falls_back_to_raw_message() {
    let mk = |e: &str| {
        format!(
            "request_id=a, client_ip_address=b, request_path=\"p q r\", status_code=200, elapsed_seconds={}, user_agent=\"u\"",
            e
        )
    };
    assert_eq!(msg_plain(&mk("1.2.3")), mk("1.2.3"));
    assert_eq!(msg_plain(&mk("abc")), mk("abc"));
    assert_eq!(msg_plain(&mk(".5")), mk(".5"));
    assert!(msg_plain(&mk("2.50")).contains("      2.50s"));
}

#[test]
fn non_matching_message_renders_unchanged() {
    assert_eq!(msg_plain("server started"), "server started");
    assert_eq!(msg_plain(""), "");
}

#[test]
fn one_token_path_renders_unmodified() {
    let m = "request_id=abc, client_ip_address=1.2.3.4, request_path=\"GET\", status_code=200, elapsed_seconds=0.015, user_agent=\"curl/7\"";
    assert_eq!(
        msg_plain(m),
        "200 | GET | abc |      0.015s | 1.2.3.4 | curl/7"
    );
}

#[test]
fn four_token_path_renders_unmodified() {
    let m = "request_id=abc, client_ip_address=1.2.3.4, request_path=\"GET /a /b HTTP/1.1\", status_code=200, elapsed_seconds=0.015, user_agent=\"curl/7\"";
    assert_eq!(
        msg_plain(m),
        "200 | GET /a /b HTTP/1.1 | abc |      0.015s | 1.2.3.4 | curl/7"
    );
}

#[test]
fn unrecognized_method_renders_uncolored_at_width() {
    let m = "request_id=a, client_ip_address=b, request_path=\"BREW /tea HTCPCP/1.0\", status_code=418, elapsed_seconds=1, user_agent=\"u\"";
    let out = msg_plain(m);
    assert_eq!(out, "418 |    BREW | /tea | HTCPCP/1.0 | a |          1s | b | u");
    let colored = msg_color(m);
    assert!(colored.contains("|    BREW |"));
}

#[test]
fn malformed_line_passes_through_in_non_strict_mode() {
    assert_eq!(
        process_line("server started", "trace", false, false),
        Some(String::from("server started\n"))
    );
    assert_eq!(
        process_line("{\"level\":\"INFO\"}", "trace", false, false),
        Some(String::from("{\"level\":\"INFO\"}\n"))
    );
}

#[test]
fn malformed_line_is_dropped_in_strict_mode() {
    assert_eq!(process_line("server started", "trace", true, false), None);
    assert_eq!(process_line("{\"level\":\"INFO\"}", "trace", true, false), None);
}

#[test]
fn filtered_out_record_produces_no_output() {
    let line = "{\"time\":\"2021-01-01T00:00:00Z\",\"level\":\"INFO\",\"msg\":\"hi\"}";
    assert_eq!(process_line(line, "error", false, false), None);
    assert_eq!(
        process_line(line, "info", false, false),
        Some(String::from("2021-01-01T00:00:00Z  INFO | hi\n"))
    );
}

#[test]
fn timestamp_is_normalized_to_utc_whole_seconds() {
    let r = decode_line(
        "{\"time\":\"2021-01-01T00:30:00.123+02:00\",\"level\":\"INFO\",\"msg\":\"hi\"}",
    )
    .expect("decodes");
    assert_eq!(r.time, "2020-12-31T22:30:00Z");
}

#[test]
fn bad_timestamp_is_not_a_record() {
    assert!(decode_line("{\"time\":\"yesterday\",\"level\":\"INFO\",\"msg\":\"hi\"}").is_none());
}

#[test]
fn missing_required_fields_are_not_a_record() {
    assert!(decode_line("{\"time\":\"2021-01-01T00:00:00Z\",\"level\":\"INFO\"}").is_none());
    assert!(decode_line("{\"level\":\"INFO\",\"msg\":\"hi\"}").is_none());
    assert!(decode_line("{}").is_none());
    assert!(decode_line("[]").is_none());
    assert!(decode_line("").is_none());
}

#[test]
fn duplicate_known_field_is_not_a_record() {
    assert!(decode_line(
        "{\"time\":\"2021-01-01T00:00:00Z\",\"time\":\"2021-01-01T00:00:00Z\",\"level\":\"INFO\",\"msg\":\"hi\"}"
    )
    .is_none());
}

#[test]
fn wrongly_typed_fields_are_not_a_record() {
    assert!(decode_line("{\"time\":\"2021-01-01T00:00:00Z\",\"level\":\"INFO\",\"msg\":3}").is_none());
    assert!(decode_line(
        "{\"time\":\"2021-01-01T00:00:00Z\",\"level\":\"INFO\",\"msg\":\"hi\",\"line\":\"5\"}"
    )
    .is_none());
    assert!(decode_line(
        "{\"time\":\"2021-01-01T00:00:00Z\",\"level\":\"INFO\",\"msg\":\"hi\",\"line\":1.5}"
    )
    .is_none());
    assert!(decode_line(
        "{\"time\":\"2021-01-01T00:00:00Z\",\"level\":\"INFO\",\"msg\":\"hi\",\"line\":-1}"
    )
    .is_none());
}

#[test]
fn null_file_and_line_are_absent() {
    let r = decode_line(
        "{\"time\":\"2021-01-01T00:00:00Z\",\"level\":\"INFO\",\"msg\":\"hi\",\"file\":null,\"line\":null}",
    )
    .expect("decodes");
    assert!(r.file.is_none());
    assert!(r.line.is_none());
}

#[test]
fn unknown_fields_are_ignored() {
    let r = decode_line(
        "{\"time\":\"2021-01-01T00:00:00Z\",\"level\":\"INFO\",\"msg\":\"hi\",\"extra\":{\"a\":[1,2,{\"b\":null}],\"c\":true},\"more\":-1.5e3}",
    )
    .expect("decodes");
    assert_eq!(r.msg, "hi");
}

#[test]
fn string_escapes_are_decoded() {
    let r = decode_line(
        "{\"time\":\"2021-01-01T00:00:00Z\",\"level\":\"INFO\",\"msg\":\"a\\\"b\\\\c\\n\\u0041\\uD83D\\uDE00\"}",
    )
    .expect("decodes");
    assert_eq!(r.msg, "a\"b\\c\nA\u{1F600}");
}

#[test]
fn malformed_syntax_is_not_a_record() {
    assert!(decode_line("{\"time\":\"2021-01-01T00:00:00Z\",\"level\":\"INFO\",\"msg\":\"hi\"").is_none());
    assert!(decode_line("{\"msg\" \"hi\"}").is_none());
    assert!(decode_line("{\"msg\":\"hi\",}").is_none());
    assert!(decode_line("{\"a\":{]}").is_none());
    assert!(decode_line("{\"a\":01}").is_none());
    assert!(decode_line("{\"msg\":\"\\x\"}").is_none());
    assert!(decode_line("{\"msg\":\"\\uD800x\"}").is_none());
}

#[test]
fn trailing_text_is_not_a_record() {
    assert!(decode_line("{\"time\":\"2021-01-01T00:00:00Z\",\"level\":\"INFO\",\"msg\":\"hi\"} x")
        .is_none());
    let ok = decode_line("  {\"time\":\"2021-01-01T00:00:00Z\",\"level\":\"INFO\",\"msg\":\"hi\"}  ");
    assert!(ok.is_some());
}

#[test]
fn level_colors_distinguish_error_from_fatal() {
    let e = rec("ERROR").format(true);
    let f = rec("FATAL").format(true);
    assert!(e.contains("\u{1b}[31mERROR\u{1b}[0m"));
    assert!(f.contains("\u{1b}[1;31mFATAL\u{1b}[0m"));
}

#[test]
fn colored_record_line_wraps_time_and_level() {
    let r = rec("ERROR");
    let out = r.format(true);
    assert_eq!(
        out,
        "\u{1b}[90m2021-01-01T00:00:00Z\u{1b}[0m \u{1b}[31mERROR\u{1b}[0m | x\n"
    );
}
