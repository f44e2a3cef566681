use jxl_zipper::config::JxlArgs;
use jxl_zipper::schedule::{order_deepest_first, schedule, select_pending, FoundDir};
use jxl_zipper::worklist::{WorkList, WorkListError};

fn dir(path: &str, depth: usize) -> FoundDir {
    FoundDir { path: path.to_string(), depth }
}

fn paths(v: &[FoundDir]) -> Vec<&str> {
    v.iter().map(|d| d.path.as_str()).collect()
}

#[test]
fn new_worklist_is_empty() {
    let w = WorkList::new("/A".to_string(), JxlArgs::fallback());
    assert_eq!(w.root(), "/A");
    assert!(w.settings().is_usable());
    assert!(w.entries().is_empty());
    assert_eq!(w.status(&"/A".to_string()), None);
}

#[test]
fn observe_records_new_directories_as_pending() {
    let mut w = WorkList::new("/A".to_string(), JxlArgs::default());
    assert!(w.observe("/A/x".to_string()));
    assert_eq!(w.status(&"/A/x".to_string()), Some(false));
    assert!(w.observe("/A/x".to_string()));
    assert_eq!(w.entries().len(), 1);
}

#[test]
fn done_directories_are_not_selected_again() {
    let mut w = WorkList::new("/A".to_string(), JxlArgs::default());
    w.observe("/A/x".to_string());
    assert_eq!(w.mark_done(&"/A/x".to_string()), Ok(()));
    assert_eq!(w.status(&"/A/x".to_string()), Some(true));
    assert!(!w.observe("/A/x".to_string()));
    assert_eq!(w.status(&"/A/x".to_string()), Some(true));
}

#[test]
fn marking_an_unknown_directory_is_refused() {
    let mut w = WorkList::new("/A".to_string(), JxlArgs::default());
    assert_eq!(w.mark_done(&"/B".to_string()), Err(WorkListError::UnknownDirectory));
    assert!(w.entries().is_empty());
}

#[test]
fn set_entry_restores_a_persisted_state() {
    let mut w = WorkList::new("/A".to_string(), JxlArgs::default());
    w.set_entry("/A/x".to_string(), true);
    w.set_entry("/A/y".to_string(), false);
    w.set_entry("/A/y".to_string(), true);
    assert_eq!(w.entries().len(), 2);
    assert_eq!(w.status(&"/A/y".to_string()), Some(true));
}

#[test]
fn deepest_directories_come_first_and_ties_keep_walk_order() {
    let dirs = vec![dir("/A", 2), dir("/A/x", 3), dir("/A/x/p", 4), dir("/A/y", 3), dir("/A/z/q", 4)];
    let ordered = order_deepest_first(&dirs);
    assert_eq!(paths(&ordered), vec!["/A/x/p", "/A/z/q", "/A/x", "/A/y", "/A"]);
    assert!(order_deepest_first(&vec![]).is_empty());
}

#[test]
fn select_pending_keeps_walk_order_and_skips_done() {
    let mut w = WorkList::new("/A".to_string(), JxlArgs::default());
    w.set_entry("/A/x".to_string(), true);
    w.set_entry("/A/y".to_string(), false);
    let found = vec![dir("/A", 2), dir("/A/x", 3), dir("/A/y", 3)];
    let pending = select_pending(&mut w, &found);
    assert_eq!(paths(&pending), vec!["/A", "/A/y"]);
    assert_eq!(w.status(&"/A".to_string()), Some(false));
    assert_eq!(w.entries().len(), 3);
}

#[test]
fn second_run_after_marking_all_done_does_no_work() {
    let mut w = WorkList::new("/A".to_string(), JxlArgs::default());
    let found = vec![dir("/A", 2), dir("/A/x", 3), dir("/A/y", 3)];
    let first = schedule(&mut w, &found);
    assert_eq!(paths(&first), vec!["/A/x", "/A/y", "/A"]);
    for d in &first {
        assert_eq!(w.mark_done(&d.path), Ok(()));
    }
    let second = schedule(&mut w, &found);
    assert!(second.is_empty());
    assert_eq!(w.entries().len(), 3);
    assert!(w.entries().iter().all(|e| e.done));
}
