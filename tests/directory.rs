use jxl_zipper::classify::FileKind;
use jxl_zipper::classify::ImageKind;
use jxl_zipper::config::JxlArgs;
use jxl_zipper::directory::{
    archive_is_kept, outcome_of_encoding, outcome_without_encoding, plan_directory, EncodeResult,
    FileOutcome,
};
use jxl_zipper::schedule::{schedule, FoundDir};
use jxl_zipper::worklist::WorkList;

fn converted(name: &str) -> FileOutcome {
    FileOutcome::Converted {
        source: format!("{}.jpg", name),
        output: format!("{}.jxl", name),
    }
}

fn settings(delete_folder: bool, delete_source_image: bool) -> JxlArgs {
    let mut s = JxlArgs::fallback();
    s.delete_folder = delete_folder;
    s.delete_source_image = delete_source_image;
    s
}

#[test]
fn files_without_encoding_are_kept_or_skipped() {
    assert!(outcome_without_encoding("a.png".to_string(), FileKind::Convertible(ImageKind::Png)).is_none());
    assert!(matches!(
        outcome_without_encoding("a.jxl".to_string(), FileKind::AlreadyTarget),
        Some(FileOutcome::Kept(p)) if p == "a.jxl"
    ));
    assert!(matches!(
        outcome_without_encoding("a.txt".to_string(), FileKind::Unsupported),
        Some(FileOutcome::Skipped(p)) if p == "a.txt"
    ));
}

#[test]
fn encoder_results_become_outcomes() {
    let ok = outcome_of_encoding("a.png".to_string(), "a.jxl".to_string(), EncodeResult::Success);
    assert!(matches!(ok, FileOutcome::Converted { ref source, ref output } if source == "a.png" && output == "a.jxl"));
    let gone = outcome_of_encoding("a.png".to_string(), "a.jxl".to_string(), EncodeResult::SourceMissing);
    assert!(matches!(gone, FileOutcome::Vanished(ref p) if p == "a.png"));
    let full = outcome_of_encoding("a.png".to_string(), "a.jxl".to_string(), EncodeResult::NoFreeName);
    assert!(matches!(full, FileOutcome::Failed { ref source, .. } if source == "a.png"));
    let bad = outcome_of_encoding(
        "a.png".to_string(),
        "a.jxl".to_string(),
        EncodeResult::Failure("stderr: broken".to_string()),
    );
    assert!(matches!(bad, FileOutcome::Failed { ref reason, .. } if reason == "stderr: broken"));
}

#[test]
fn directory_without_images_is_left_unchanged() {
    let outcomes = vec![
        FileOutcome::Skipped("notes.txt".to_string()),
        FileOutcome::Vanished("old.jpg".to_string()),
    ];
    let plan = plan_directory(&settings(true, true), &outcomes);
    assert!(!plan.archive && !plan.delete_folder);
    assert!(plan.members.is_empty() && plan.delete_sources.is_empty());
    let empty = plan_directory(&settings(true, true), &vec![]);
    assert!(!empty.archive && !empty.delete_folder && empty.delete_sources.is_empty());
}

#[test]
fn fully_converted_directory_is_packed_and_cleaned() {
    let outcomes = vec![converted("a"), FileOutcome::Kept("b.jxl".to_string()), converted("c")];
    let plan = plan_directory(&settings(true, true), &outcomes);
    assert!(plan.archive);
    assert_eq!(plan.members, vec!["a.jxl", "b.jxl", "c.jxl"]);
    assert_eq!(plan.delete_sources, vec!["a.jpg", "c.jpg"]);
    assert!(plan.delete_folder);
    assert!(plan.use_trash);
}

#[test]
fn any_failure_blocks_packing_and_deletion() {
    let outcomes = vec![
        converted("a"),
        FileOutcome::Failed { source: "b.png".to_string(), reason: "exit 1".to_string() },
        converted("c"),
    ];
    let plan = plan_directory(&settings(true, true), &outcomes);
    assert!(!plan.archive && !plan.delete_folder);
    assert!(plan.members.is_empty() && plan.delete_sources.is_empty());
}

#[test]
fn packing_off_still_removes_sources_but_not_the_directory() {
    let mut s = settings(true, true);
    s.make_zip = false;
    s.dont_use_trashcan_just_delete = true;
    let plan = plan_directory(&s, &vec![converted("a")]);
    assert!(!plan.archive && !plan.delete_folder && !plan.use_trash);
    assert_eq!(plan.delete_sources, vec!["a.jpg"]);
}

#[test]
fn archive_with_nothing_appended_is_removed() {
    assert!(!archive_is_kept(&vec![]));
    assert!(!archive_is_kept(&vec![false, false]));
    assert!(archive_is_kept(&vec![false, true]));
}

#[test]
fn two_sibling_directories_each_reach_done() {
    let mut w = WorkList::new("/A".to_string(), settings(true, false));
    let found = vec![
        FoundDir { path: "/A".to_string(), depth: 1 },
        FoundDir { path: "/A/x".to_string(), depth: 2 },
        FoundDir { path: "/A/y".to_string(), depth: 2 },
    ];
    let order = schedule(&mut w, &found);
    assert_eq!(order.len(), 3);
    assert_eq!(order[2].path, "/A");
    let s = w.settings().clone();

    let x = plan_directory(&s, &vec![converted("/A/x/1"), converted("/A/x/2")]);
    assert!(x.archive);
    assert_eq!(x.members.len(), 2);
    assert!(x.delete_folder);
    assert_eq!(w.mark_done(&"/A/x".to_string()), Ok(()));

    let y = plan_directory(
        &s,
        &vec![converted("/A/y/1"), FileOutcome::Skipped("/A/y/readme.txt".to_string())],
    );
    assert!(y.archive);
    assert_eq!(y.members, vec!["/A/y/1.jxl"]);
    assert!(!y.delete_folder);
    assert_eq!(w.mark_done(&"/A/y".to_string()), Ok(()));

    assert_eq!(w.status(&"/A/x".to_string()), Some(true));
    assert_eq!(w.status(&"/A/y".to_string()), Some(true));
}

#[test]
fn rerun_after_crash_treats_gone_sources_as_handled() {
    let mut w = WorkList::new("/A".to_string(), JxlArgs::fallback());
    w.set_entry("/A/x".to_string(), false);
    let found = vec![FoundDir { path: "/A/x".to_string(), depth: 2 }];
    let order = schedule(&mut w, &found);
    assert_eq!(order.len(), 1);
    let outcomes = vec![
        outcome_of_encoding("/A/x/1.jpg".to_string(), "/A/x/1.jxl".to_string(), EncodeResult::SourceMissing),
        outcome_of_encoding("/A/x/2.jpg".to_string(), "/A/x/2.jxl".to_string(), EncodeResult::SourceMissing),
    ];
    let plan = plan_directory(w.settings(), &outcomes);
    assert!(!plan.archive && !plan.delete_folder && plan.delete_sources.is_empty());
    assert_eq!(w.mark_done(&"/A/x".to_string()), Ok(()));
    assert!(schedule(&mut w, &found).is_empty());
}
