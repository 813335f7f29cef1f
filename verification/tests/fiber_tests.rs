use tungsten_core::builder::BuildOptions;
use tungsten_core::fiber::{gather_results, pick_job_source, JobSource};

#[test]
fn worker_prefers_its_own_queue() {
    assert_eq!(pick_job_source(0, 3, 5, &vec![Some(3), Some(7)]), JobSource::Local);
}

#[test]
fn worker_then_takes_from_the_injector() {
    assert_eq!(pick_job_source(0, 0, 1, &vec![Some(0), Some(7)]), JobSource::Injector);
}

#[test]
fn worker_steals_from_the_first_busy_other() {
    let others = vec![Some(4), None, Some(0), Some(2), Some(9)];
    assert_eq!(pick_job_source(0, 0, 0, &others), JobSource::Steal(3));
    assert_eq!(pick_job_source(3, 0, 0, &others), JobSource::Steal(0));
}

#[test]
fn worker_never_steals_from_itself() {
    assert_eq!(pick_job_source(1, 0, 0, &vec![Some(0), Some(5)]), JobSource::Idle);
    assert_eq!(pick_job_source(0, 0, 0, &vec![]), JobSource::Idle);
}

#[test]
fn gathering_all_successes_keeps_their_order() {
    let results: Vec<Result<i32, String>> = vec![Ok(10), Ok(20), Ok(30)];
    assert_eq!(gather_results(results), Ok(vec![10, 20, 30]));
    let none: Vec<Result<i32, String>> = vec![];
    assert_eq!(gather_results(none), Ok(vec![]));
}

#[test]
fn gathering_reports_the_first_failure() {
    let results: Vec<Result<i32, String>> =
        vec![Ok(1), Err("first".to_string()), Ok(3), Err("second".to_string())];
    assert_eq!(gather_results(results), Err("first".to_string()));
}

#[test]
fn default_build_is_a_plain_debug_build() {
    let o = BuildOptions::default();
    assert!(!o.release);
    assert!(!o.emit_llvm);
    assert!(!o.emit_asm);
    assert_eq!(o.custom_out, None);
}
