use log_manager::logs::{deserialize_level, serialize_level, Level};
use log_manager::source::{
    source_round_trip, source_serialize_deterministic, Source, SubSource,
};

const ALL_LEVELS: [Level; 5] = [
    Level::Trace,
    Level::Debug,
    Level::Info,
    Level::Warn,
    Level::Error,
];

#[test]
fn level_tokens_are_the_five_fixed_strings() {
    assert_eq!(serialize_level(Level::Trace), "Trace");
    assert_eq!(serialize_level(Level::Debug), "Debug");
    assert_eq!(serialize_level(Level::Info), "Info");
    assert_eq!(serialize_level(Level::Warn), "Warn");
    assert_eq!(serialize_level(Level::Error), "Error");
}

#[test]
fn level_round_trip() {
    for level in ALL_LEVELS {
        let token = serialize_level(level);
        assert_eq!(deserialize_level(&token), Some(level));
    }
}

#[test]
fn level_deserialize_rejects_unknown_tokens() {
    assert_eq!(deserialize_level(""), None);
    assert_eq!(deserialize_level("Warning"), None);
    assert_eq!(deserialize_level("trace"), None);
    assert_eq!(deserialize_level("Inf"), None);
}

#[test]
fn level_serialize_is_deterministic() {
    for level in ALL_LEVELS {
        assert_eq!(serialize_level(level), serialize_level(level));
    }
}

#[test]
fn level_severity_is_totally_ordered() {
    assert!(Level::Trace.severity() < Level::Debug.severity());
    assert!(Level::Debug.severity() < Level::Info.severity());
    assert!(Level::Info.severity() < Level::Warn.severity());
    assert!(Level::Warn.severity() < Level::Error.severity());
}

#[test]
fn level_display_names() {
    assert_eq!(Level::Warn.display_name(), "Warning");
    assert_eq!(Level::Info.display_name(), "Info");
}

#[test]
fn source_round_trip_all_values() {
    let all = [SubSource::Toaster, SubSource::Cat, SubSource::Thermometer];
    for v in all {
        assert_eq!(source_round_trip(&v), Some(v));
        let s = v.serialize_source();
        assert_eq!(SubSource::deserialize_source(&s), Some(v));
    }
}

#[test]
fn source_serialize_deterministic_on_equal_values() {
    let (a, b) = source_serialize_deterministic(&SubSource::Cat, &SubSource::Cat);
    assert_eq!(a, b);
}

#[test]
fn source_deserialize_rejects_unknown_forms() {
    assert_eq!(SubSource::deserialize_source(""), None);
    assert_eq!(SubSource::deserialize_source("Dog"), None);
    assert_eq!(SubSource::deserialize_source("toaster"), None);
}
