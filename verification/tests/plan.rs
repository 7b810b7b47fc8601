use staging_plan::entry::{Entry, EntryParser};
use staging_plan::measure::Measure;
use staging_plan::plan::{Plan, PlanSummary};

fn measure(value: f32) -> Option<Measure> {
    Some(Measure::from_bits(value.to_bits()))
}

fn packed(id: u32, fnsku: &str, units: u32, per_case: u32, dims: (f32, f32, f32), pounds: f32) -> Entry {
    EntryParser {
        id: Some(id),
        fnsku: Some(fnsku.to_string()),
        units: Some(units),
        pack_type: Some("Packed".to_string()),
        case_qt: Some(per_case),
        case_weight: measure(pounds),
        case_length: measure(dims.0),
        case_width: measure(dims.1),
        case_height: measure(dims.2),
        ..EntryParser::default()
    }
    .build()
    .unwrap()
}

fn loose(id: u32, fnsku: &str, units: u32, group: &str, pounds: f32) -> Entry {
    EntryParser {
        id: Some(id),
        fnsku: Some(fnsku.to_string()),
        units: Some(units),
        pack_type: Some("Loose".to_string()),
        staging_group: Some(group.to_string()),
        unit_weight: measure(pounds),
        ..EntryParser::default()
    }
    .build()
    .unwrap()
}

fn ids(plan: &Plan) -> Vec<u32> {
    plan.entries().iter().map(|e| e.get_id()).collect()
}

#[test]
fn expanding_two_packed_entries_gives_four() {
    let mut plan = Plan::new(vec![
        packed(1, "ABCDEFGHIJ", 15, 5, (10.0, 5.0, 3.0), 2.0),
        packed(2, "KLMNOPQRST", 4, 4, (8.0, 8.0, 8.0), 1.0),
    ]);
    plan.expand_entries();
    assert_eq!(plan.len(), 4);
    assert_eq!(ids(&plan), vec![1, 1, 1, 2]);
    for entry in plan.entries() {
        assert_eq!(entry.num_of_cases(), Ok(1));
        assert!(entry.is_handling_unit());
    }
    let units: Vec<u32> = plan.entries().iter().map(|e| e.get_units()).collect();
    assert_eq!(units, vec![5, 5, 5, 4]);
}

#[test]
fn expanding_keeps_the_case_of_each_copy() {
    let mut plan = Plan::new(vec![packed(7, "ABCDEFGHIJ", 6, 3, (2.2, 9.0, 4.5), 1.0)]);
    plan.expand_entries();
    assert_eq!(plan.len(), 2);
    for entry in plan.entries() {
        assert!(entry.is_packed());
        assert_eq!(entry.get_id(), 7);
        assert_eq!(entry.get_fnsku(), "ABCDEFGHIJ");
        assert_eq!(entry.try_per_case(), Some(3));
        assert_eq!(entry.get_units(), 3);
        assert_eq!(entry.try_case_length(), Some(9));
        assert_eq!(entry.try_case_width(), Some(5));
        assert_eq!(entry.try_case_height(), Some(3));
        assert_eq!(entry.try_case_gram_weight(), Some(454));
    }
}

#[test]
fn expanding_leaves_loose_entries_in_place() {
    let mut plan = Plan::new(vec![
        loose(1, "AAAAAAAAAA", 3, "G1", 0.5),
        packed(2, "BBBBBBBBBB", 4, 2, (1.0, 2.0, 3.0), 1.0),
        loose(3, "CCCCCCCCCC", 9, "G2", 0.5),
    ]);
    plan.expand_entries();
    assert_eq!(ids(&plan), vec![1, 2, 2, 3]);
    assert_eq!(plan.entries()[0].get_units(), 3);
    assert_eq!(plan.entries()[3].get_units(), 9);
}

#[test]
fn expanding_twice_is_expanding_once() {
    let mut plan = Plan::new(vec![
        packed(1, "ABCDEFGHIJ", 15, 5, (10.0, 5.0, 3.0), 2.0),
        loose(2, "ABCDEFGHIJ", 3, "G1", 0.5),
        packed(3, "KLMNOPQRST", 4, 1, (8.0, 8.0, 8.0), 1.0),
    ]);
    plan.expand_entries();
    let once: Vec<(u32, u32)> = plan.entries().iter().map(|e| (e.get_id(), e.get_units())).collect();
    plan.expand_entries();
    let twice: Vec<(u32, u32)> = plan.entries().iter().map(|e| (e.get_id(), e.get_units())).collect();
    assert_eq!(once, twice);
    assert_eq!(once, vec![(1, 5), (1, 5), (1, 5), (2, 3), (3, 1), (3, 1), (3, 1), (3, 1)]);
}

#[test]
fn expanding_a_plan_of_loose_entries_changes_nothing() {
    let mut plan = Plan::new(vec![loose(1, "A", 3, "G1", 0.5), loose(2, "B", 1, "G2", 1.5)]);
    plan.expand_entries();
    assert_eq!(ids(&plan), vec![1, 2]);
}

#[test]
fn expanding_drops_a_packed_entry_without_units() {
    let mut plan = Plan::new(vec![packed(1, "ABCDEFGHIJ", 0, 5, (1.0, 1.0, 1.0), 1.0)]);
    plan.expand_entries();
    assert_eq!(plan.len(), 0);
}

#[test]
fn sort_puts_loose_before_packed() {
    let mut plan = Plan::new(vec![
        packed(1, "AAAAAAAAAA", 5, 5, (1.0, 1.0, 1.0), 1.0),
        loose(2, "ZZZZZZZZZZ", 1, "G", 1.0),
    ]);
    plan.sort();
    assert_eq!(ids(&plan), vec![2, 1]);
}

#[test]
fn sort_goes_by_each_part_of_the_key_in_turn() {
    let mut plan = Plan::new(vec![
        packed(1, "B", 1, 1, (1.0, 1.0, 1.0), 1.0),
        packed(2, "A", 1, 1, (5.0, 4.0, 3.0), 2.0),
        packed(3, "A", 1, 1, (5.0, 4.0, 3.0), 1.0),
        packed(4, "A", 1, 1, (5.0, 4.0, 2.0), 9.0),
        packed(5, "A", 1, 1, (5.0, 3.0, 3.0), 9.0),
        packed(6, "A", 1, 1, (4.0, 4.0, 4.0), 9.0),
        loose(7, "B", 1, "G2", 1.0),
        loose(8, "B", 1, "G1", 9.0),
        loose(9, "AB", 1, "G9", 1.0),
        loose(10, "A", 1, "G9", 1.0),
    ]);
    plan.sort();
    assert_eq!(ids(&plan), vec![10, 9, 8, 7, 6, 5, 4, 3, 2, 1]);
}

#[test]
fn sort_keeps_entries_with_the_same_key_in_their_order() {
    let mut plan = Plan::new(vec![
        loose(1, "B", 1, "G", 1.0),
        loose(2, "A", 7, "G", 1.0),
        loose(3, "A", 8, "G", 2.0),
        loose(4, "A", 9, "G", 3.0),
    ]);
    plan.sort();
    assert_eq!(ids(&plan), vec![2, 3, 4, 1]);
}

#[test]
fn sorting_twice_is_sorting_once() {
    let mut plan = Plan::new(vec![
        packed(1, "Q", 2, 1, (3.0, 2.0, 1.0), 1.0),
        loose(2, "Q", 1, "G2", 1.0),
        packed(3, "C", 2, 1, (3.0, 2.0, 1.0), 1.0),
        loose(4, "Q", 1, "G1", 1.0),
        packed(5, "C", 2, 1, (1.0, 2.0, 3.0), 1.0),
    ]);
    plan.sort();
    let once = ids(&plan);
    plan.sort();
    assert_eq!(ids(&plan), once);
    assert_eq!(once, vec![4, 2, 3, 5, 1]);
}

#[test]
fn sort_orders_identifiers_by_code_point() {
    let mut plan = Plan::new(vec![
        loose(1, "b", 1, "G", 1.0),
        loose(2, "B", 1, "G", 1.0),
        loose(3, "", 1, "G", 1.0),
        loose(4, "é", 1, "G", 1.0),
        loose(5, "Ba", 1, "G", 1.0),
    ]);
    plan.sort();
    assert_eq!(ids(&plan), vec![3, 2, 5, 1, 4]);
}

#[test]
fn push_adds_at_the_end_without_looking_for_twins() {
    let mut plan = Plan::new(Vec::new());
    assert_eq!(plan.len(), 0);
    plan.push(loose(1, "ABCDEFGHIJ", 3, "G1", 0.5));
    plan.push(loose(1, "ABCDEFGHIJ", 3, "G1", 0.5));
    plan.push(packed(2, "ABCDEFGHIJ", 5, 5, (1.0, 1.0, 1.0), 1.0));
    assert_eq!(plan.len(), 3);
    assert_eq!(ids(&plan), vec![1, 1, 2]);
}

#[test]
fn summary_counts_entries_and_identifiers() {
    let plan = Plan::new(vec![
        loose(1, "ABCDEFGHIJ", 3, "G1", 0.5),
        packed(2, "ABCDEFGHIJ", 5, 5, (1.0, 1.0, 1.0), 1.0),
        packed(3, "KLMNOPQRST", 5, 5, (1.0, 1.0, 1.0), 1.0),
        loose(4, "KLMNOPQRST", 3, "G1", 0.5),
        loose(5, "UVWXYZABCD", 3, "G1", 0.5),
    ]);
    assert_eq!(plan.loose_count(), 3);
    assert_eq!(plan.packed_count(), 2);
    assert_eq!(plan.fnsku_count(), 3);
    assert!(plan.has_valid_fnskus());
    let summary = plan.summarize();
    assert_eq!(summary, PlanSummary::new(3, 5, true, 2, 3));
    assert_eq!(summary.packed_count + summary.loose_count, summary.entry_count);
    assert_eq!(summary.skus, 3);
    assert_eq!(summary.entry_count, 5);
    assert!(summary.valid_fnskus);
    assert_eq!(summary.packed_count, 2);
    assert_eq!(summary.loose_count, 3);
    assert_eq!(PlanSummary::summary(plan), summary);
}

#[test]
fn summary_sees_an_identifier_of_the_wrong_length() {
    let plan = Plan::new(vec![
        loose(1, "ABCDEFGHIJ", 3, "G1", 0.5),
        loose(2, "ABCDEFGHI", 3, "G1", 0.5),
    ]);
    assert!(!plan.has_valid_fnskus());
    assert_eq!(plan.summarize(), PlanSummary::new(2, 2, false, 0, 2));
    let long = Plan::new(vec![loose(1, "ABCDEFGHIJK", 3, "G1", 0.5)]);
    assert!(!long.has_valid_fnskus());
}

#[test]
fn identifier_length_counts_characters() {
    let plan = Plan::new(vec![loose(1, "ÄBCDEFGHIJ", 3, "G1", 0.5)]);
    assert!(plan.has_valid_fnskus());
}

#[test]
fn summary_of_an_empty_plan() {
    let plan = Plan::new(Vec::new());
    assert_eq!(plan.summarize(), PlanSummary::new(0, 0, true, 0, 0));
}

#[test]
fn a_plan_starts_out_empty() {
    let mut plan = Plan::default();
    assert_eq!(plan.len(), 0);
    plan.sort();
    plan.expand_entries();
    assert_eq!(plan.len(), 0);
    assert!(plan.entries().is_empty());
}

#[test]
fn only_single_cases_and_loose_entries_are_handling_units() {
    assert!(loose(1, "A", 30, "G", 1.0).is_handling_unit());
    assert!(packed(2, "A", 4, 4, (1.0, 1.0, 1.0), 1.0).is_handling_unit());
    assert!(!packed(3, "A", 8, 4, (1.0, 1.0, 1.0), 1.0).is_handling_unit());
    assert!(!packed(4, "A", 0, 4, (1.0, 1.0, 1.0), 1.0).is_handling_unit());
}
