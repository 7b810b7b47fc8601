use staging_plan::builder::{EmptyPlan, PlanBuilder};
use staging_plan::entry::{Entry, EntryParser};
use staging_plan::error::ErrorKind;
use staging_plan::measure::Measure;

fn loose(id: u32) -> Entry {
    EntryParser {
        id: Some(id),
        fnsku: Some("ABCDEFGHIJ".to_string()),
        units: Some(1),
        pack_type: Some("Loose".to_string()),
        staging_group: Some("G".to_string()),
        unit_weight: Some(Measure::from_bits(1.0f32.to_bits())),
        ..EntryParser::default()
    }
    .build()
    .unwrap()
}

fn ids(builder: PlanBuilder) -> Vec<u32> {
    builder.build().unwrap().entries().iter().map(|e| e.get_id()).collect()
}

#[test]
fn build_keeps_the_entries_in_the_order_of_the_rows() {
    let mut builder = PlanBuilder::default();
    builder.push(Ok(loose(3)));
    builder.push(Err(ErrorKind::MissingUnits));
    builder.push(Ok(loose(1)));
    builder.push(Err(ErrorKind::MissingFnsku));
    builder.push(Ok(loose(2)));
    assert_eq!(builder.len(), 5);
    assert_eq!(ids(builder), vec![3, 1, 2]);
}

#[test]
fn build_without_any_entry_fails() {
    let mut builder = PlanBuilder::default();
    builder.push(Err(ErrorKind::MissingUnits));
    builder.push(Err(ErrorKind::MissingFnsku));
    let failure = builder.build().unwrap_err();
    assert_eq!(failure, EmptyPlan);
    assert_eq!(failure.message(), "Plan was built, but it is empty.");
    assert!(PlanBuilder::default().build().is_err());
}

#[test]
fn removing_rows_without_fnskus_keeps_the_other_errors() {
    let mut builder = PlanBuilder::default();
    builder.push(Err(ErrorKind::MissingFnsku));
    builder.push(Ok(loose(1)));
    builder.push(Err(ErrorKind::MissingId));
    builder.push(Err(ErrorKind::MissingFnsku));
    builder.push(Err(ErrorKind::MissingFnsku));
    builder.push(Ok(loose(2)));
    builder.remove_entries_without_fnskus();
    assert_eq!(builder.len(), 3);
    builder.remove_entries_without_fnskus();
    assert_eq!(builder.len(), 3);
    assert_eq!(ids(builder), vec![1, 2]);
}

#[test]
fn the_discard_policy_does_not_change_the_plan() {
    let mut with_policy = PlanBuilder::default();
    let mut without_policy = PlanBuilder::default();
    assert!(!with_policy.keep_error());
    with_policy.set_keep_error(true);
    assert!(with_policy.keep_error());
    assert!(!without_policy.keep_error());
    for builder in [&mut with_policy, &mut without_policy] {
        builder.push(Err(ErrorKind::MissingFnsku));
        builder.push(Ok(loose(5)));
        builder.push(Err(ErrorKind::InvalidPackType));
        builder.push(Ok(loose(4)));
    }
    assert_eq!(ids(with_policy), vec![5, 4]);
    assert_eq!(ids(without_policy), vec![5, 4]);
}
