use jxl_zipper::collision::{
    candidate_name, decimal_string, first_free, probe_step, reconcile_plan, Probe, Reconcile,
    MAX_COLLISION_INDEX,
};

#[test]
fn candidate_names_follow_the_collision_set() {
    assert_eq!(candidate_name("photo", 0), "photo.jxl");
    assert_eq!(candidate_name("photo", 1), "photo(1).jxl");
    assert_eq!(candidate_name("photo", 12), "photo(12).jxl");
    assert_eq!(candidate_name("", 0), ".jxl");
}

#[test]
fn decimal_string_writes_base_ten() {
    assert_eq!(decimal_string(0), "0");
    assert_eq!(decimal_string(9071), "9071");
    assert_eq!(decimal_string(u64::MAX), u64::MAX.to_string());
}

#[test]
fn probe_moves_on_until_a_free_member() {
    assert_eq!(probe_step(0, false), Probe::Use(0));
    assert_eq!(probe_step(0, true), Probe::Next(1));
    assert_eq!(probe_step(3, true), Probe::Next(4));
    assert_eq!(probe_step(MAX_COLLISION_INDEX, true), Probe::Exhausted);
    assert_eq!(probe_step(MAX_COLLISION_INDEX, false), Probe::Use(MAX_COLLISION_INDEX));
}

#[test]
fn first_free_finds_the_lowest_free_member() {
    assert_eq!(first_free(&vec![]), None);
    assert_eq!(first_free(&vec![false]), Some(0));
    assert_eq!(first_free(&vec![true, true, false, false]), Some(2));
    assert_eq!(first_free(&vec![true, true]), None);
}

#[test]
fn no_reconciliation_when_the_canonical_name_was_free() {
    assert!(reconcile_plan(42, &vec![]).is_empty());
}

#[test]
fn identical_canonical_output_is_removed_then_replaced() {
    let plan = reconcile_plan(42, &vec![42]);
    assert_eq!(plan, vec![Reconcile::RemoveDuplicate(0), Reconcile::Promote(1)]);
}

#[test]
fn different_canonical_output_is_kept_then_replaced() {
    let plan = reconcile_plan(42, &vec![7]);
    assert_eq!(plan, vec![Reconcile::KeepDistinct(0), Reconcile::Promote(1)]);
}

#[test]
fn members_are_reconciled_from_the_highest_down() {
    let plan = reconcile_plan(5, &vec![5, 9, 5]);
    assert_eq!(
        plan,
        vec![
            Reconcile::RemoveDuplicate(2),
            Reconcile::KeepDistinct(1),
            Reconcile::RemoveDuplicate(0),
            Reconcile::Promote(3),
        ]
    );
}
