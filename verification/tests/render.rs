use alto_logger::FileLogger;
use alto_logger::Level;
use alto_logger::MultiLogger;
use alto_logger::Options;
use alto_logger::Sink;
use alto_logger::SinkOutput;
use alto_logger::StyleConfig;
use alto_logger::TermLogger;
use alto_logger::TimeConfig;
use alto_logger::render::flatten_segments;

fn single_line_options() -> Options {
    Options::default().with_style(StyleConfig::SingleLine)
}

#[test]
fn single_line_field_order() {
    let sink = FileLogger::new(single_line_options(), "t=trace");
    let bytes = sink.log(Level::Info, "t", "hello").unwrap();
    assert_eq!(bytes, b"INFO  [t] hello\n".to_vec());
}

#[test]
fn level_text_padded_to_five() {
    let sink = FileLogger::new(single_line_options(), "t=trace");
    assert_eq!(sink.log(Level::Error, "t", "m").unwrap(), b"ERROR [t] m\n".to_vec());
    assert_eq!(sink.log(Level::Warn, "t", "m").unwrap(), b"WARN  [t] m\n".to_vec());
    assert_eq!(sink.log(Level::Info, "t", "m").unwrap(), b"INFO  [t] m\n".to_vec());
    assert_eq!(sink.log(Level::Debug, "t", "m").unwrap(), b"DEBUG [t] m\n".to_vec());
    assert_eq!(sink.log(Level::Trace, "t", "m").unwrap(), b"TRACE [t] m\n".to_vec());
}

#[test]
fn multi_line_continuation() {
    let sink = FileLogger::new(Options::default(), "t=trace");
    let bytes = sink.log(Level::Info, "t", "hello").unwrap();
    assert_eq!(bytes, "INFO  [t]\n\u{2937} hello\n".as_bytes().to_vec());
}

#[test]
fn rejected_record_renders_nothing() {
    let sink = FileLogger::new(single_line_options(), "t=warn");
    assert!(sink.log(Level::Info, "t", "hello").is_none());
    assert!(sink.log(Level::Warn, "t", "hello").is_some());
}

#[test]
fn truncate_round_trip_line_count() {
    let sink = FileLogger::new(single_line_options(), "app=trace");
    let mut content: Vec<u8> = Vec::new();
    let messages = ["first", "second", "third"];
    for m in &messages {
        content.extend_from_slice(&sink.log(Level::Info, "app", m).unwrap());
    }
    let text = String::from_utf8(content).unwrap();
    let lines: Vec<&str> = text.split_terminator('\n').collect();
    assert_eq!(lines.len(), messages.len());
    for (line, m) in lines.iter().zip(messages.iter()) {
        assert_eq!(*line, format!("INFO  [app] {}", m));
    }
}

#[test]
fn relative_to_previous_first_call_is_zero() {
    let opts = single_line_options().with_time(TimeConfig::relative_local());
    let sink = FileLogger::new(opts, "t=trace");
    let first = sink.log(Level::Info, "t", "m").unwrap();
    assert_eq!(first, b"INFO  0000.000000000s [t] m\n".to_vec());
    let second = sink.log(Level::Info, "t", "m").unwrap();
    let text = String::from_utf8(second).unwrap();
    assert!(text.starts_with("INFO  0"));
    assert!(text.contains('.'));
    assert!(text.ends_with("s [t] m\n"));
}

#[test]
fn relative_to_previous_tracks_gap() {
    let opts = single_line_options().with_time(TimeConfig::relative_local());
    let sink = FileLogger::new(opts, "t=trace");
    let _ = sink.log(Level::Info, "t", "m").unwrap();
    let start = std::time::Instant::now();
    while start.elapsed() < std::time::Duration::from_millis(20) {}
    let second = sink.log(Level::Info, "t", "m").unwrap();
    let text = String::from_utf8(second).unwrap();
    let ts = &text["INFO  ".len()..text.len() - " [t] m\n".len()];
    assert_eq!(ts.len(), "0000.000000000s".len());
    let secs: u64 = ts[0..4].parse().unwrap();
    let nanos: u64 = ts[5..14].parse().unwrap();
    let total = secs * 1_000_000_000 + nanos;
    assert!(total >= 15_000_000, "duration {} below the measured gap", total);
}

#[test]
fn relative_to_start_format() {
    let opts = single_line_options().with_time(TimeConfig::relative_now());
    let sink = FileLogger::new(opts, "t=trace");
    let bytes = sink.log(Level::Info, "t", "m").unwrap();
    let text = String::from_utf8(bytes).unwrap();
    assert!(text.starts_with("INFO  0000."));
    assert!(text.ends_with("s [t] m\n"));
    let ts = &text["INFO  ".len()..text.len() - " [t] m\n".len()];
    assert_eq!(ts.len(), "0000.000000000s".len());
}

#[test]
fn unix_timestamp_format() {
    let opts = single_line_options().with_time(TimeConfig::unix_timestamp());
    let sink = FileLogger::new(opts, "t=trace");
    let bytes = sink.log(Level::Info, "t", "m").unwrap();
    let text = String::from_utf8(bytes).unwrap();
    assert!(text.starts_with("INFO  "));
    assert!(text.ends_with(" [t] m\n"));
    let ts = &text["INFO  ".len()..text.len() - " [t] m\n".len()];
    assert!(ts.len() >= 4);
    assert!(ts.chars().all(|c| c.is_ascii_digit()));
}

#[test]
fn colored_segments_flatten_to_plain_bytes() {
    let term = TermLogger::new(Options::default(), "t=trace", true);
    let file = FileLogger::new(Options::default(), "t=trace");
    let segs = term.log(Level::Warn, "t", "payload").unwrap();
    let flattened = flatten_segments(&segs);
    let plain = file.log(Level::Warn, "t", "payload").unwrap();
    assert_eq!(flattened, plain);
}

#[test]
fn suppressed_color_segments_carry_no_colors() {
    let term = TermLogger::new(single_line_options(), "t=trace", false);
    let segs = term.log(Level::Info, "t", "m").unwrap();
    assert!(segs.iter().all(|s| s.color.is_none()));
    let colored = TermLogger::new(single_line_options(), "t=trace", true);
    let csegs = colored.log(Level::Info, "t", "m").unwrap();
    assert_eq!(flatten_segments(&segs), flatten_segments(&csegs));
}

#[test]
fn fan_out_rejection_reaches_no_child() {
    let term = TermLogger::new(single_line_options(), "t=trace", false);
    let file = FileLogger::new(single_line_options(), "t=trace");
    let fan = MultiLogger::new("other=trace").with(Sink::Term(term)).with(Sink::File(file));
    assert!(!fan.enabled(Level::Info, "t"));
    let outs = fan.log(Level::Info, "t", "m");
    assert_eq!(outs.len(), 2);
    assert!(outs.iter().all(|o| o.is_none()));
}

#[test]
fn fan_out_children_filter_independently() {
    let term = TermLogger::new(single_line_options(), "t=off", false);
    let file = FileLogger::new(single_line_options(), "t=trace");
    let fan = MultiLogger::new("t=trace").with(Sink::Term(term)).with(Sink::File(file));
    let outs = fan.log(Level::Info, "t", "m");
    assert_eq!(outs.len(), 2);
    assert!(outs[0].is_none());
    match &outs[1] {
        Some(SinkOutput::File(bytes)) => {
            assert_eq!(*bytes, b"INFO  [t] m\n".to_vec());
        },
        _ => panic!("expected file output"),
    }
}
