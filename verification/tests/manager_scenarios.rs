use log_manager::error::{BuilderError, Error, RequiredProperties};
use log_manager::logs::{Level, SimpleLog};
use log_manager::manager::{Builder, LogManager, Pagination};
use log_manager::model::RawRow;
use log_manager::source::SubSource;

fn new_manager(rows: Vec<RawRow>) -> LogManager<SubSource> {
    Builder::default()
        .database_url("logs.db".to_string())
        .build::<SubSource>(rows)
        .unwrap_or_else(|_| panic!("construction failed"))
}

fn simple(level: Level, content: &str) -> SimpleLog {
    SimpleLog {
        timestamp: "2024-01-01T00:00:00+00:00".to_string(),
        level,
        location: "src/test".to_string(),
        content: content.to_string(),
    }
}

fn raw(id: i64, source: &str, level: &str, content: &str) -> RawRow {
    RawRow {
        id,
        source: source.to_string(),
        timestamp: "2024-01-01T00:00:00+00:00".to_string(),
        level: level.to_string(),
        location: "loc".to_string(),
        content: content.to_string(),
    }
}

#[test]
fn save_log_reports_one_row_affected() {
    let mut m = new_manager(vec![]);
    let r = m.save_log(simple(Level::Info, "hello"), SubSource::Cat);
    assert_eq!(r.ok(), Some(1));
}

#[test]
fn saved_ids_are_strictly_increasing_from_one() {
    let mut m = new_manager(vec![]);
    for i in 0..3 {
        m.save_log(simple(Level::Info, &format!("{i}")), SubSource::Cat)
            .unwrap_or_else(|_| panic!("save failed"));
    }
    let (total, logs) = m.search(None, None, None, &[]).ok().unwrap();
    assert_eq!(total, 3);
    let ids: Vec<u32> = logs.iter().map(|l| l.id()).collect();
    assert_eq!(ids, vec![1, 2, 3]);
}

#[test]
fn saved_ids_exceed_bootstrap_max() {
    let mut m = new_manager(vec![raw(3, "Cat", "Info", "a"), raw(7, "Cat", "Info", "b")]);
    m.save_log(simple(Level::Warn, "later"), SubSource::Toaster)
        .unwrap_or_else(|_| panic!("save failed"));
    let (total, logs) = m.search(None, None, None, &[]).ok().unwrap();
    assert_eq!(total, 3);
    assert_eq!(logs.last().unwrap().id(), 8);
    for pair in logs.windows(2) {
        assert!(pair[0].id() < pair[1].id());
    }
}

#[test]
fn three_records_source_and_level_filter() {
    let mut m = new_manager(vec![]);
    m.save_log(simple(Level::Info, "one"), SubSource::Toaster).unwrap();
    m.save_log(simple(Level::Debug, "two"), SubSource::Toaster).unwrap();
    m.save_log(simple(Level::Info, "three"), SubSource::Cat).unwrap();
    let (total, logs) = m
        .search(Some(SubSource::Toaster), None, None, &[Level::Info])
        .ok()
        .unwrap();
    assert_eq!(total, 1);
    assert_eq!(logs.len(), 1);
    assert_eq!(logs[0].content, "one");
    assert_eq!(logs[0].id(), 1);
    assert_eq!(*logs[0].source(), SubSource::Toaster);
}

#[test]
fn five_records_second_page_of_two() {
    let mut m = new_manager(vec![]);
    for i in 1..=5 {
        m.save_log(simple(Level::Info, &format!("{i}")), SubSource::Toaster)
            .unwrap();
    }
    let (total, logs) = m
        .search(
            Some(SubSource::Toaster),
            Some(Pagination::Page { page: 2, page_size: 2 }),
            None,
            &[],
        )
        .ok()
        .unwrap();
    assert_eq!(total, 5);
    assert_eq!(logs.len(), 2);
    assert_eq!(logs[0].content, "3");
    assert_eq!(logs[1].content, "4");
}

#[test]
fn content_filter_is_literal_substring() {
    let mut m = new_manager(vec![]);
    m.save_log(simple(Level::Info, "the quick fox"), SubSource::Cat).unwrap();
    m.save_log(simple(Level::Info, "quicksilver"), SubSource::Cat).unwrap();
    m.save_log(simple(Level::Info, "slow snail"), SubSource::Cat).unwrap();
    let (total, logs) = m.search(None, None, Some("quick"), &[]).ok().unwrap();
    assert_eq!(total, 2);
    assert_eq!(logs.len(), 2);
    assert_eq!(logs[0].content, "the quick fox");
    assert_eq!(logs[1].content, "quicksilver");
}

#[test]
fn filters_compose_conjunctively() {
    let mut m = new_manager(vec![]);
    m.save_log(simple(Level::Info, "alpha"), SubSource::Toaster).unwrap();
    m.save_log(simple(Level::Info, "alpha"), SubSource::Cat).unwrap();
    m.save_log(simple(Level::Debug, "alpha"), SubSource::Toaster).unwrap();
    m.save_log(simple(Level::Info, "beta"), SubSource::Toaster).unwrap();
    let (total, logs) = m
        .search(Some(SubSource::Toaster), None, Some("alph"), &[Level::Info])
        .ok()
        .unwrap();
    assert_eq!(total, 1);
    assert_eq!(logs.len(), 1);
    assert_eq!(logs[0].id(), 1);
}

#[test]
fn empty_level_set_means_no_level_filter() {
    let mut m = new_manager(vec![]);
    m.save_log(simple(Level::Trace, "a"), SubSource::Cat).unwrap();
    m.save_log(simple(Level::Error, "b"), SubSource::Cat).unwrap();
    let (total, logs) = m.search(None, None, None, &[]).ok().unwrap();
    assert_eq!(total, 2);
    assert_eq!(logs.len(), 2);
}

#[test]
fn level_set_filters_membership() {
    let mut m = new_manager(vec![]);
    m.save_log(simple(Level::Trace, "a"), SubSource::Cat).unwrap();
    m.save_log(simple(Level::Info, "b"), SubSource::Cat).unwrap();
    m.save_log(simple(Level::Error, "c"), SubSource::Cat).unwrap();
    let (total, logs) = m
        .search(None, None, None, &[Level::Trace, Level::Error])
        .ok()
        .unwrap();
    assert_eq!(total, 2);
    assert_eq!(logs[0].content, "a");
    assert_eq!(logs[1].content, "c");
}

#[test]
fn page_past_the_end_is_empty_with_full_count() {
    let mut m = new_manager(vec![]);
    m.save_log(simple(Level::Info, "a"), SubSource::Cat).unwrap();
    let (total, logs) = m
        .search(None, Some(Pagination::Page { page: 5, page_size: 10 }), None, &[])
        .ok()
        .unwrap();
    assert_eq!(total, 1);
    assert!(logs.is_empty());
}

#[test]
fn corrupt_rows_are_dropped_not_fatal() {
    let m = new_manager(vec![
        raw(1, "Cat", "Info", "good"),
        raw(2, "Cat", "NotALevel", "bad level"),
        raw(3, "Dog", "Info", "bad source"),
    ]);
    let (total, logs) = m.search(None, None, None, &[]).ok().unwrap();
    assert_eq!(total, 3);
    assert_eq!(logs.len(), 1);
    assert_eq!(logs[0].content, "good");
}

#[test]
fn hydration_failures_yield_one_aggregate_diagnostic() {
    let m = new_manager(vec![
        raw(1, "Cat", "Info", "good"),
        raw(2, "Cat", "NotALevel", "bad"),
    ]);
    let (total, logs, diag) = m.search_with_diagnostics(None, None, None, &[]);
    assert_eq!(total, 2);
    assert_eq!(logs.len(), 1);
    match diag {
        Some(Error::Errors(errs)) => assert_eq!(errs.len(), 1),
        _ => panic!("expected one aggregate diagnostic"),
    }
}

#[test]
fn no_failures_means_no_diagnostic() {
    let m = new_manager(vec![raw(1, "Cat", "Info", "good")]);
    let (total, logs, diag) = m.search_with_diagnostics(None, None, None, &[]);
    assert_eq!(total, 1);
    assert_eq!(logs.len(), 1);
    assert!(diag.is_none());
}

#[test]
fn builder_reports_missing_database_url() {
    let r = Builder::default().build::<SubSource>(vec![]);
    match r {
        Err(Error::Builder(BuilderError::MissingProperties(ps))) => {
            assert_eq!(ps, vec![RequiredProperties::DatabaseUrl]);
        }
        _ => panic!("expected a missing-property error"),
    }
}

#[test]
fn negative_persisted_id_is_fatal() {
    let r = Builder::default()
        .database_url("logs.db".to_string())
        .build::<SubSource>(vec![raw(-4, "Cat", "Info", "x")]);
    match r {
        Err(Error::InvalidPersistedId(id)) => assert_eq!(id, -4),
        _ => panic!("expected an invalid persisted id error"),
    }
}

#[test]
fn out_of_order_persisted_ids_are_fatal() {
    let r = Builder::default()
        .database_url("logs.db".to_string())
        .build::<SubSource>(vec![raw(5, "Cat", "Info", "x"), raw(5, "Cat", "Info", "y")]);
    assert!(matches!(r, Err(Error::InvalidPersistedId(_))));
}

#[test]
fn stop_sets_the_flag() {
    let mut m = new_manager(vec![]);
    assert!(!m.stopped);
    m.stop();
    assert!(m.stopped);
}

#[test]
fn builder_stop_value_is_kept() {
    let m = Builder::default()
        .database_url("logs.db".to_string())
        .stop(true)
        .build::<SubSource>(vec![])
        .ok()
        .unwrap();
    assert!(m.stopped);
}
