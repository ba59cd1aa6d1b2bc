use alto_logger::Color;
use alto_logger::ColorConfig;
use alto_logger::Error;
use alto_logger::FileLogger;
use alto_logger::Level;
use alto_logger::Options;
use alto_logger::StyleConfig;
use alto_logger::TimeConfig;
use alto_logger::options::time::parse_format_description;

#[test]
fn monochrome_palette_is_all_white() {
    let c = ColorConfig::monochrome();
    assert_eq!(c.level_trace, Color::White);
    assert_eq!(c.level_error, Color::White);
    assert_eq!(c.timestamp, Color::White);
    assert_eq!(c.target, Color::White);
    assert_eq!(c.continuation, Color::White);
    assert_eq!(c.message, Color::White);
}

#[test]
fn only_levels_palette() {
    let c = ColorConfig::only_levels();
    assert_eq!(c.level_trace, Color::Blue);
    assert_eq!(c.level_debug, Color::Cyan);
    assert_eq!(c.level_info, Color::Green);
    assert_eq!(c.level_warn, Color::Yellow);
    assert_eq!(c.level_error, Color::Red);
    assert_eq!(c.timestamp, Color::White);
    assert_eq!(c.message, Color::White);
}

#[test]
fn default_palette() {
    let c = ColorConfig::default();
    assert_eq!(c.level_info, Color::Green);
    assert_eq!(c.timestamp, Color::Ansi256(243));
    assert_eq!(c.target, Color::Ansi256(131));
    assert_eq!(c.continuation, Color::Ansi256(237));
    assert_eq!(c.message, Color::Ansi256(231));
}

#[test]
fn options_builders_replace_one_field() {
    let opts = Options::default()
        .with_style(StyleConfig::SingleLine)
        .with_color(ColorConfig::monochrome())
        .with_time(TimeConfig::unix_timestamp());
    assert!(matches!(opts.style, StyleConfig::SingleLine));
    assert_eq!(opts.color.level_trace, Color::White);
    assert!(matches!(opts.time, TimeConfig::Unix));
}

#[test]
fn default_options() {
    let opts = Options::default();
    assert!(matches!(opts.style, StyleConfig::MultiLine));
    assert!(matches!(opts.time, TimeConfig::NoTimestamp));
    assert_eq!(opts.color.level_debug, Color::Cyan);
}

#[test]
fn format_description_accepts_components_and_literals() {
    assert!(parse_format_description("[hour]:[minute]:[second]").is_ok());
    assert!(parse_format_description("").is_ok());
    assert!(parse_format_description("time is [hour] o'clock").is_ok());
}

#[test]
fn format_description_rejects_malformed_patterns() {
    for bad in &["[day]", "[hour", "]", "x]y", "[[hour]]", "[HOUR]"] {
        match parse_format_description(bad) {
            Err(Error::InvalidFormatString(_)) => {},
            other => panic!("expected invalid format for {:?}, got {:?}", bad, other.is_ok()),
        }
    }
}

#[test]
fn formatted_timestamp_shape() {
    let items = parse_format_description("[hour]:[minute]:[second]").unwrap();
    let opts = Options::default()
        .with_style(StyleConfig::SingleLine)
        .with_time(TimeConfig::date_time_format(items));
    let sink = FileLogger::new(opts, "t=trace");
    let bytes = sink.log(Level::Info, "t", "m").unwrap();
    let text = String::from_utf8(bytes).unwrap();
    assert!(text.starts_with("INFO  "));
    assert!(text.ends_with(" [t] m\n"));
    let ts = &text["INFO  ".len()..text.len() - " [t] m\n".len()];
    assert_eq!(ts.len(), 8);
    let parts: Vec<&str> = ts.split(':').collect();
    assert_eq!(parts.len(), 3);
    for p in parts {
        assert_eq!(p.len(), 2);
        assert!(p.chars().all(|c| c.is_ascii_digit()));
    }
}

#[test]
fn timestamped_file_names() {
    let secs: u64 = 1587429534;
    assert_eq!(
        FileLogger::timestamp_path("out.log", secs).unwrap().as_str(),
        "out_1587429534.log"
    );
    assert_eq!(FileLogger::timestamp_path("out", secs).unwrap().as_str(), "out_1587429534");
    assert_eq!(
        FileLogger::timestamp_path("dir/out.tar.gz", secs).unwrap().as_str(),
        "dir/out.tar_1587429534.gz"
    );
    assert_eq!(
        FileLogger::timestamp_path(".hidden", secs).unwrap().as_str(),
        ".hidden_1587429534"
    );
    assert!(FileLogger::timestamp_path("", secs).is_none());
    assert!(FileLogger::timestamp_path("dir/", secs).is_none());
}

#[test]
fn file_sink_records_resolved_path() {
    let sink = FileLogger::new(Options::default(), "");
    assert!(sink.file_name().is_none());
    let sink = sink.with_file_name(String::from("out_1.log"));
    assert_eq!(sink.file_name().unwrap().as_str(), "out_1.log");
}

#[test]
fn error_messages() {
    assert_eq!(Error::SetLogger.message(), "logger already initialized");
    assert_eq!(Error::FileLogger(String::from("no such directory")).message(), "no such directory");
    assert_eq!(Error::InvalidFormatString(String::from("bad pattern")).message(), "bad pattern");
}

#[test]
fn cloned_options_share_mode() {
    let opts = Options::default().with_time(TimeConfig::relative_local());
    let copy = opts.clone();
    assert!(matches!(copy.time, TimeConfig::Timing(_)));
    assert!(matches!(copy.style, StyleConfig::MultiLine));
}
