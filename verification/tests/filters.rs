use alto_logger::filters::Filters;
use alto_logger::filters::parse;
use alto_logger::Level;
use alto_logger::LevelFilter;

#[test]
fn filters() {
    let input = "debug,foo::bar=off,foo::baz=trace,foo=info,baz=off,quux=error";
    let filters = Filters::from_str(input);

    let modules = &[
        ("foo::bar", LevelFilter::Off),
        ("foo::baz", LevelFilter::Trace),
        ("foo", LevelFilter::Info),
        ("baz", LevelFilter::Off),
        ("quux", LevelFilter::Error),
        ("something", LevelFilter::Debug),
        ("another::thing", LevelFilter::Debug),
    ];

    for (module, expected) in modules {
        assert_eq!(filters.find_module(module).unwrap(), *expected);
    }
}

#[test]
fn no_inheritance_from_descendant() {
    let filters = Filters::from_str("foo::bar=info");
    assert_eq!(filters.find_module("foo"), None);
    assert_eq!(filters.find_module("foo::bar"), Some(LevelFilter::Info));
    assert_eq!(filters.find_module("foo::bar::baz"), Some(LevelFilter::Info));
}

#[test]
fn resolution_ignores_unrelated_entries() {
    let plain = Filters::from_str("debug,foo=info");
    let extended = Filters::from_str("debug,foo=info,bar=trace,qux::inner=off");
    for module in &["foo", "foo::x", "unrelated"] {
        assert_eq!(plain.find_module(module), extended.find_module(module));
    }
}

#[test]
fn empty_spec_enables_nothing() {
    let filters = Filters::from_str("");
    assert_eq!(filters.find_module("anything"), None);
    assert!(!filters.is_enabled(Level::Error, "anything"));
}

#[test]
fn bare_minimum_without_entries_enables_nothing() {
    let filters = Filters::from_str("debug");
    assert_eq!(filters.find_module("anything"), None);
}

#[test]
fn minimum_takes_maximum_of_bare_levels() {
    let filters = Filters::from_str("a=error,info,debug");
    assert_eq!(filters.find_module("zzz"), Some(LevelFilter::Debug));
}

#[test]
fn bare_off_is_not_a_minimum() {
    let filters = Filters::from_str("a=error,off");
    assert_eq!(filters.find_module("zzz"), None);
}

#[test]
fn level_names_ignore_ascii_case() {
    let filters = Filters::from_str("foo=INFO,BAR=TrAcE");
    assert_eq!(filters.find_module("foo"), Some(LevelFilter::Info));
    assert_eq!(filters.find_module("BAR"), Some(LevelFilter::Trace));
}

#[test]
fn malformed_tokens_are_dropped() {
    let filters = Filters::from_str("foo=info,garbage,bar=,=,nonsense=wibble,baz=warn");
    assert_eq!(filters.find_module("foo"), Some(LevelFilter::Info));
    assert_eq!(filters.find_module("baz"), Some(LevelFilter::Warn));
    assert_eq!(filters.find_module("bar"), None);
    assert_eq!(filters.find_module("garbage"), None);
}

#[test]
fn parse_token_forms() {
    let (path, level) = parse("foo::bar=warn").unwrap();
    assert_eq!(path.as_str(), "foo::bar");
    assert_eq!(level, LevelFilter::Warn);

    let (path, level) = parse("=info").unwrap();
    assert_eq!(path.as_str(), "");
    assert_eq!(level, LevelFilter::Info);

    assert!(parse("foo").is_none());
    assert!(parse("foo=").is_none());
    assert!(parse("foo=wibble").is_none());

    let (path, level) = parse("foo=info=garbage").unwrap();
    assert_eq!(path.as_str(), "foo");
    assert_eq!(level, LevelFilter::Info);
}

#[test]
fn duplicate_paths_first_wins() {
    let filters = Filters::from_str("foo=info,foo=debug");
    assert_eq!(filters.find_module("foo"), Some(LevelFilter::Info));
}

#[test]
fn keyed_shape_resolves_like_list_shape() {
    let mut spec = String::new();
    for i in 0..16 {
        if i > 0 {
            spec.push(',');
        }
        spec.push_str(&format!("mod{}=info", i));
    }
    spec.push_str(",mod3=debug,special::inner=trace");
    let filters = Filters::from_str(&spec);
    assert_eq!(filters.find_module("mod0"), Some(LevelFilter::Info));
    assert_eq!(filters.find_module("mod3"), Some(LevelFilter::Info));
    assert_eq!(filters.find_module("mod15"), Some(LevelFilter::Info));
    assert_eq!(filters.find_module("special::inner"), Some(LevelFilter::Trace));
    assert_eq!(filters.find_module("special::inner::deep"), Some(LevelFilter::Trace));
    assert_eq!(filters.find_module("absent"), None);
}

#[test]
fn parsing_is_idempotent() {
    let input = "debug,foo::bar=off,foo::baz=trace,foo=info,baz=off,quux=error";
    let a = Filters::from_str(input);
    let b = Filters::from_str(input);
    let levels = [Level::Trace, Level::Debug, Level::Info, Level::Warn, Level::Error];
    let modules = ["foo::bar", "foo::baz", "foo", "baz", "quux", "something", "a::b::c", ""];
    for module in &modules {
        assert_eq!(a.find_module(module), b.find_module(module));
        for level in &levels {
            assert_eq!(a.is_enabled(*level, module), b.is_enabled(*level, module));
        }
    }
}

#[test]
fn severity_ordering_against_threshold() {
    let filters = Filters::from_str("t=warn");
    assert!(filters.is_enabled(Level::Error, "t"));
    assert!(filters.is_enabled(Level::Warn, "t"));
    assert!(!filters.is_enabled(Level::Info, "t"));
    assert!(!filters.is_enabled(Level::Debug, "t"));
    assert!(!filters.is_enabled(Level::Trace, "t"));

    let off = Filters::from_str("t=off");
    assert!(!off.is_enabled(Level::Error, "t"));
}
