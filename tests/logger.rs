use logger::format::{CompileError, Field, Format, FormatText};
use logger::render::{append_millis, render_plain, render_segments, ExchangeFacts};
use logger::style::{resolve_attrs, resolve_color, status_color, AttrRule, Color, ColorRule, StyleTable};
use logger::terminal::{append_segment, render_terminal};
use logger::render::Segment;
use logger::timing::{elapsed_ns, request_time_text, Instant, Timestamp};
use logger::Logger;

fn stamp() -> Timestamp {
    Timestamp { year: 2024, month: 3, day: 5, hour: 7, minute: 8, second: 9, nanos: 123, utc_offset: 3600 }
}

fn facts(method: &str, uri: &str, status: Option<u16>, elapsed_ns: u64) -> ExchangeFacts {
    ExchangeFacts {
        method: method.to_string(),
        uri: uri.to_string(),
        remote_addr: "127.0.0.1:4000".to_string(),
        status,
        started: stamp(),
        elapsed_ns,
    }
}

fn millis(ns: u64) -> String {
    let mut s = String::new();
    append_millis(&mut s, ns);
    s
}

#[test]
fn custom_template_plain_line() {
    let f = Format::new("{method} {uri} -> {status} ({response-time} ms)").unwrap();
    let line = render_plain(&f, &facts("GET", "/", Some(200), 3_250_000));
    assert_eq!(line, "GET / -> 200 (3.25 ms)");
}

#[test]
fn default_template_with_red_error_status() {
    let logger = Logger::new(None);
    let fx = facts("POST", "/users", Some(404), 500_000);
    assert_eq!(logger.render_line(&fx), "POST /users -> 404 (0.5 ms)");

    let colored = Logger::new(Some(Format::default_styled(&StyleTable::colored())));
    let segs = colored.render_styled(&fx);
    let texts: Vec<&str> = segs.iter().map(|s| s.text.as_str()).collect();
    assert_eq!(texts, vec!["POST", " ", "/users", " -> ", "404", " (", "0.5", " ms)"]);
    for (i, s) in segs.iter().enumerate() {
        if i == 4 {
            assert_eq!(s.color, Some(Color::Red));
        } else {
            assert_eq!(s.color, None);
        }
    }
}

#[test]
fn unknown_field_is_rejected() {
    assert_eq!(Format::new("{bogus}").unwrap_err(), CompileError::UnknownField);
}

#[test]
fn missing_closing_marker_is_malformed() {
    assert_eq!(Format::new("{method").unwrap_err(), CompileError::MalformedTemplate);
}

#[test]
fn concurrent_exchanges_keep_own_start() {
    let t1 = Instant { secs: 100, nanos: 0 };
    let t2 = Instant { secs: 100, nanos: 400_000_000 };
    let exit2 = Instant { secs: 101, nanos: 0 };
    let exit1 = Instant { secs: 102, nanos: 0 };
    assert_eq!(elapsed_ns(Some(t2), exit2), 600_000_000);
    assert_eq!(elapsed_ns(Some(t1), exit1), 2_000_000_000);
}

#[test]
fn elapsed_without_start_or_backwards_is_zero() {
    let t = Instant { secs: 5, nanos: 10 };
    assert_eq!(elapsed_ns(None, t), 0);
    assert_eq!(elapsed_ns(Some(Instant { secs: 6, nanos: 0 }), t), 0);
    assert_eq!(elapsed_ns(Some(Instant { secs: i64::MIN, nanos: 0 }), Instant { secs: i64::MAX, nanos: 0 }), u64::MAX);
}

#[test]
fn compile_is_deterministic_on_values() {
    let t = "{method} {uri} {remote-address} at {request-time}";
    let a = Format::new(t).unwrap();
    let b = Format::new(t).unwrap();
    let fx = facts("GET", "/x", Some(200), 1);
    assert_eq!(render_plain(&a, &fx), render_plain(&b, &fx));
    assert_eq!(a.units().len(), b.units().len());
}

#[test]
fn compile_units_and_coalescing() {
    let f = Format::new("a{status}bc").unwrap();
    let u = f.units();
    assert_eq!(u.len(), 3);
    assert!(matches!(&u[0].text, FormatText::Str(s) if s == "a"));
    assert!(matches!(u[1].text, FormatText::Field(Field::Status)));
    assert!(matches!(&u[2].text, FormatText::Str(s) if s == "bc"));
    assert_eq!(Format::new("").unwrap().units().len(), 0);
    assert_eq!(Format::new("plain text").unwrap().units().len(), 1);
}

#[test]
fn malformed_templates() {
    for t in ["}", "a}b", "{method}}", "{{method}", "{me{thod}", "x{", "{status"] {
        assert_eq!(Format::new(t).unwrap_err(), CompileError::MalformedTemplate, "{}", t);
    }
}

#[test]
fn unknown_fields() {
    for t in ["{}", "{Method}", "{remote-addr}", "a {uri} {time}"] {
        assert_eq!(Format::new(t).unwrap_err(), CompileError::UnknownField, "{}", t);
    }
}

#[test]
fn malformed_wins_over_unknown() {
    assert_eq!(Format::new("{bogus}{method").unwrap_err(), CompileError::MalformedTemplate);
}

#[test]
fn rendering_keeps_order_of_swapped_spans() {
    let fx = facts("GET", "/", Some(200), 0);
    let a = render_plain(&Format::new("A{method}B").unwrap(), &fx);
    let b = render_plain(&Format::new("B{method}A").unwrap(), &fx);
    assert_eq!(a, "AGETB");
    assert_eq!(b, "BGETA");
}

#[test]
fn status_color_buckets() {
    assert_eq!(status_color(Some(200)), Color::Green);
    assert_eq!(status_color(Some(299)), Color::Green);
    assert_eq!(status_color(Some(300)), Color::Yellow);
    assert_eq!(status_color(Some(399)), Color::Yellow);
    assert_eq!(status_color(Some(400)), Color::Red);
    assert_eq!(status_color(Some(599)), Color::Red);
    assert_eq!(status_color(Some(600)), Color::Blue);
    assert_eq!(status_color(Some(199)), Color::Blue);
    assert_eq!(status_color(Some(100)), Color::Blue);
    assert_eq!(status_color(Some(0)), Color::Blue);
    assert_eq!(status_color(None), Color::Blue);
}

#[test]
fn rules_resolve() {
    assert_eq!(resolve_color(ColorRule::Constant(Some(Color::Cyan)), Some(500)), Some(Color::Cyan));
    assert_eq!(resolve_color(ColorRule::ByStatus, Some(302)), Some(Color::Yellow));
    assert!(resolve_attrs(AttrRule::BoldOnError, Some(503)).bold);
    assert!(!resolve_attrs(AttrRule::BoldOnError, Some(204)).bold);
}

#[test]
fn no_style_bleed_between_adjacent_units() {
    let mut table = StyleTable::plain();
    table.method.color = ColorRule::Constant(Some(Color::Magenta));
    let f = Format::compile("{method}{uri}", &table).unwrap();
    let segs = render_segments(&f, &facts("GET", "/a", Some(200), 0));
    assert_eq!(segs.len(), 2);
    assert_eq!(segs[0].color, Some(Color::Magenta));
    assert_eq!(segs[1].color, None);
    assert_eq!(segs[1].text, "/a");
}

#[test]
fn rendering_twice_is_identical() {
    let f = Format::new("{request-time} {method} {response-time}").unwrap();
    let fx = facts("PUT", "/", Some(201), 1_234_567);
    assert_eq!(render_plain(&f, &fx), render_plain(&f, &fx));
}

#[test]
fn millis_formatting() {
    assert_eq!(millis(0), "0");
    assert_eq!(millis(3_250_000), "3.25");
    assert_eq!(millis(500_000), "0.5");
    assert_eq!(millis(12_000_000), "12");
    assert_eq!(millis(1), "0.000001");
    assert_eq!(millis(1_234_567), "1.234567");
    assert_eq!(millis(u64::MAX), "18446744073709.551615");
}

#[test]
fn request_time_stamp() {
    assert_eq!(request_time_text(&stamp()), "2024-03-05T07:08:09.000000123Z+0100");
    let utc = Timestamp { utc_offset: 0, ..stamp() };
    assert_eq!(request_time_text(&utc), "2024-03-05T07:08:09.000000123Z-0000");
}

#[test]
fn all_fields_render() {
    let f = Format::new("{remote-address}|{status}|{request-time}").unwrap();
    let line = render_plain(&f, &facts("GET", "/", None, 0));
    assert_eq!(line, "127.0.0.1:4000|<missing status code>|2024-03-05T07:08:09.000000123Z+0100");
}

#[test]
fn logger_with_custom_format() {
    let logger = Logger::new(Some(Format::new("{uri} {status}").unwrap()));
    assert_eq!(logger.render_line(&facts("GET", "/p", Some(500), 0)), "/p 500");
}

#[test]
fn default_format_matches_default_template() {
    let fx = facts("DELETE", "/z", Some(204), 7_000_000);
    let compiled = Format::new("{method} {uri} -> {status} ({response-time} ms)").unwrap();
    assert_eq!(render_plain(&Format::default(), &fx), render_plain(&compiled, &fx));
}

#[test]
fn terminal_line_resets_after_every_segment() {
    let f = Format::default_styled(&StyleTable::colored());
    let out = render_terminal(&f, &facts("POST", "/users", Some(404), 500_000));
    assert_eq!(
        out,
        "POST\x1b[0m \x1b[0m/users\x1b[0m -> \x1b[0m\x1b[31m404\x1b[0m (\x1b[0m0.5\x1b[0m ms)\x1b[0m\n"
    );
}

#[test]
fn terminal_segment_with_attributes() {
    let mut attrs = logger::style::Attrs::none();
    attrs.bold = true;
    attrs.underline = true;
    let seg = Segment { text: "x".to_string(), color: Some(Color::Green), attrs };
    let mut out = String::from("a");
    append_segment(&mut out, &seg);
    assert_eq!(out, "a\x1b[32m\x1b[1m\x1b[4mx\x1b[0m");
}
