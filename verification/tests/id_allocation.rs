use log_manager::error::Error;
use log_manager::id::IdAllocator;
use log_manager::logs::{Level, SimpleLog};
use log_manager::manager::Builder;
use log_manager::source::SubSource;

#[test]
fn bootstrap_seeds_one_past_the_observed_max() {
    let a = IdAllocator::bootstrap(0);
    assert_eq!(a.next, 1);
    let a = IdAllocator::bootstrap(41);
    assert_eq!(a.next, 42);
}

#[test]
fn allocate_hands_out_strictly_increasing_ids() {
    let mut a = IdAllocator::bootstrap(9);
    let first = a.allocate().unwrap();
    let second = a.allocate().unwrap();
    let third = a.allocate().unwrap();
    assert_eq!(first, 10);
    assert_eq!(second, 11);
    assert_eq!(third, 12);
}

#[test]
fn allocate_stops_at_the_end_of_the_id_space() {
    let mut a = IdAllocator { next: u64::from(u32::MAX) };
    assert_eq!(a.allocate(), Some(u32::MAX));
    assert_eq!(a.allocate(), None);
    assert_eq!(a.allocate(), None);
}

#[test]
fn save_log_reports_id_space_exhaustion() {
    let mut m = Builder::default()
        .database_url("logs.db".to_string())
        .build::<SubSource>(vec![])
        .ok()
        .unwrap();
    m.allocator.next = u64::from(u32::MAX) + 1;
    let entry = SimpleLog {
        timestamp: "2024-01-01T00:00:00+00:00".to_string(),
        level: Level::Info,
        location: "loc".to_string(),
        content: "c".to_string(),
    };
    let r = m.save_log(entry, SubSource::Cat);
    assert!(matches!(r, Err(Error::IdSpaceExhausted)));
}

#[test]
fn freshly_built_managers_are_well_formed() {
    let m = Builder::default()
        .database_url("logs.db".to_string())
        .build::<SubSource>(vec![])
        .ok()
        .unwrap();
    assert!(m.is_well_formed());
    let mut broken = m;
    broken.allocator.next = 0;
    assert!(!broken.is_well_formed());
}
