use zkvm_bench::Benchmarker;

#[test]
fn fresh_benchmarker_has_no_measurement() {
    let mut b = Benchmarker::new();
    assert!(b.end_benchmark().is_none());
    assert!(b.end_benchmark().is_none());
}

#[test]
fn started_benchmarker_measures() {
    let mut b = Benchmarker::new();
    b.start_benchmark();
    let first = b.end_benchmark();
    assert!(first.is_some());
    let second = b.end_benchmark();
    assert!(second.is_some());
    // The start is kept, so the second measurement is no shorter.
    assert!(second.unwrap() >= first.unwrap());
}

#[test]
fn restart_measures_from_the_new_start() {
    let mut b = Benchmarker::new();
    b.start_benchmark();
    let waited = std::time::Instant::now();
    while waited.elapsed() < std::time::Duration::from_millis(20) {}
    let long = b.end_benchmark().unwrap();
    b.start_benchmark();
    let short = b.end_benchmark().unwrap();
    assert!(long >= std::time::Duration::from_millis(20));
    assert!(short < long);
}

#[test]
fn start_at_replaces_an_earlier_start() {
    let early = std::time::Instant::now();
    while early.elapsed() < std::time::Duration::from_millis(20) {}
    let late = std::time::Instant::now();
    let mut b = Benchmarker::new();
    b.start_at(early);
    let from_early = b.end_benchmark().unwrap();
    b.start_at(late);
    let from_late = b.end_benchmark().unwrap();
    assert!(from_early >= std::time::Duration::from_millis(20));
    assert!(from_late < from_early);
}
