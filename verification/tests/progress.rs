//! Tests of the loader's progress accounting.

use coffee::load::Progress;

#[test]
fn fresh_progress_has_nothing_done() {
    let p = Progress::new(8);
    assert_eq!(p.total_work(), 8);
    assert_eq!(p.completed_work(), 0);
    assert!(p.stage().is_none());
}

#[test]
fn completed_work_is_clamped_to_the_total() {
    let mut p = Progress::new(3);
    p.notify_progress(2);
    assert_eq!(p.completed_work(), 2);
    p.notify_progress(5);
    assert_eq!(p.completed_work(), 3);
}

#[test]
fn notifying_saturates_instead_of_wrapping() {
    let mut p = Progress::new(10);
    p.notify_progress(u32::MAX);
    p.notify_progress(u32::MAX);
    assert_eq!(p.completed_work(), 10);
}

#[test]
fn stages_nest_innermost_last() {
    let mut p = Progress::new(2);
    p.push_stage(String::from("Loading assets..."));
    p.push_stage(String::from("Decoding images..."));
    assert_eq!(p.stage().unwrap(), "Decoding images...");
    p.pop_stage();
    assert_eq!(p.stage().unwrap(), "Loading assets...");
    p.pop_stage();
    assert!(p.stage().is_none());
    // Popping with no stage left is accepted and changes nothing.
    p.pop_stage();
    assert!(p.stage().is_none());
}
