use spangen::config::{Config, ConfigError, SpanOrder, MAX_PROJECTS};

fn base() -> Config {
    Config {
        count: 100,
        throughput: None,
        spans_per_segment: 17,
        segments_per_trace: 1,
        order: SpanOrder::Post,
        batch_size: 100,
        batch_delay_ms: 2000,
        batch_delay_stddev: 500,
        concurrent_traces: 1000,
        payload_size: 14400,
        tree_depth: 3,
        segments_without_root: 0,
        orgs: 1000,
        projects: 10,
    }
}

fn counts(c: &Config) -> (u64, u64, usize, u16, usize) {
    (c.orgs, c.projects, c.tree_depth, c.segments_without_root, c.count)
}

#[test]
fn validate_keeps_usable_values() {
    let mut c = base();
    assert!(c.validate().is_ok());
    assert_eq!(counts(&c), (1000, 10, 3, 0, 100));
}

#[test]
fn validate_replaces_zero_counts_with_one() {
    let mut c = base();
    c.orgs = 0;
    c.projects = 0;
    c.tree_depth = 0;
    assert!(c.validate().is_ok());
    assert_eq!(counts(&c), (1, 1, 1, 0, 100));
}

#[test]
fn validate_passes_large_project_counts_through() {
    let mut c = base();
    c.projects = MAX_PROJECTS;
    assert!(c.validate().is_ok());
    assert_eq!(c.projects, 1000);
    let mut d = base();
    d.projects = 5000;
    assert!(d.validate().is_ok());
    assert_eq!(d.projects, 5000);
}

#[test]
fn validate_rejects_too_many_rootless_segments() {
    let mut c = base();
    c.segments_without_root = 101;
    c.orgs = 0;
    assert_eq!(c.validate(), Err(ConfigError::SegmentsWithoutRootOutOfRange));
    assert_eq!(c.orgs, 1);
    let mut d = base();
    d.segments_without_root = 100;
    assert!(d.validate().is_ok());
}

#[test]
fn validate_twice_equals_validate_once() {
    for &(orgs, projects, depth) in &[(0u64, 0u64, 0usize), (5, 2000, 0), (1, 999, 7), (0, 1000, 2)] {
        let mut once = base();
        once.orgs = orgs;
        once.projects = projects;
        once.tree_depth = depth;
        once.validate().unwrap();
        let mut twice = once;
        twice.validate().unwrap();
        assert_eq!(counts(&once), counts(&twice));
    }
}

#[test]
fn config_error_has_a_message() {
    assert_eq!(
        ConfigError::SegmentsWithoutRootOutOfRange.message(),
        "segments-without-root must be between 0 and 100"
    );
}

#[test]
fn order_names_parse_in_any_case() {
    assert_eq!(SpanOrder::parse("post"), Some(SpanOrder::Post));
    assert_eq!(SpanOrder::parse("PRE"), Some(SpanOrder::Pre));
    assert_eq!(SpanOrder::parse("Random"), Some(SpanOrder::Random));
    assert_eq!(SpanOrder::parse("sideways"), None);
    assert_eq!(SpanOrder::parse(""), None);
}

#[test]
fn lowercase_names_are_matched_exactly() {
    assert_eq!(SpanOrder::from_lowercase_name("pre"), Some(SpanOrder::Pre));
    assert_eq!(SpanOrder::from_lowercase_name("PRE"), None);
    assert_eq!(SpanOrder::from_lowercase_name("post "), None);
}
