use staging_plan::adapter::RawField;
use staging_plan::builder::PlanBuilder;
use staging_plan::entry::{Entry, EntryParser};
use staging_plan::error::ErrorKind;
use staging_plan::measure::Measure;

const HEADERS: [&str; 12] = [
    "Info",
    "FNSKU",
    "Quantity",
    "Pack Type",
    "Staging Group",
    "Unit Weight",
    "Case QT",
    "Case Length",
    "Case Width",
    "Case Height",
    "Case Weight",
    "Total Cases",
];

const TEST_PLAN: &str = "\
Info,FNSKU,Quantity,Pack Type,Staging Group,Unit Weight,Case QT,Case Length,Case Width,Case Height,Case Weight,Total Cases
1,X000000001,50,Packed,,,10,12.5,8,6.25,11.2,5
2,X000000002,4,Loose,A,0.5,,,,,,
3,X000000003,25,Packed,,,5,20,10,10,30,5
4,X000000004,1,Loose,A,1.25,,,,,,
5,,3,Loose,A,1,,,,,,
6,X000000006,2,Loose,B,2,,,,,,
7,X000000007,7,Loose,B,0.1,,,,,,
8,X000000008,9,Packed,,,4,5,5,5,5,
9,X000000009,1,Loose,C,3,,,,,,
10,X000000010,1,Loose,C,3.5,,,,,,
11,X000000011,6,Loose,C,0.75,,,,,,
12,X000000012,8,Bulk,C,1,,,,,,
13,X000000013,2,Loose,D,1,,,,,,
14,X000000014,3,Loose,D,1,,,,,,
15,X000000015,1,Loose,,1,,,,,,
16,X000000016,36,Packed,,,12,9,7,8,14.5,3
";

fn raw_fields(record: &csv::StringRecord) -> Vec<RawField> {
    HEADERS
        .iter()
        .zip(record.iter())
        .map(|(header, text)| {
            let number = text.parse::<f32>().ok().map(|v| Measure::from_bits(v.to_bits()));
            RawField::new(header.to_string(), text.to_string(), number)
        })
        .collect()
}

fn records() -> Vec<csv::StringRecord> {
    csv::Reader::from_reader(TEST_PLAN.as_bytes()).into_records().map(|x| x.unwrap()).collect()
}

fn isolate_ok_entries() -> Vec<Entry> {
    records()
        .iter()
        .map(|x| EntryParser::from_string_record(&raw_fields(x)).unwrap().build())
        .filter_map(|x| x.ok())
        .collect()
}

fn plan_builder() -> PlanBuilder {
    let mut pb = PlanBuilder::default();
    for record in records() {
        pb.push(Entry::from_csv_record(&raw_fields(&record)));
    }
    pb
}

#[test]
fn deserialize_plan_csv() {
    let built: Vec<Result<Entry, ErrorKind>> = records()
        .iter()
        .map(|x| EntryParser::from_string_record(&raw_fields(x)).unwrap().build())
        .collect();
    assert_eq!(built.len(), 16);
    built.into_iter().filter(|x| x.is_ok()).for_each(|x| println!("{:?}", x.unwrap()));
}

#[test]
fn check_ranges() {
    let expect = vec![5, 1, 5, 1, 1, 1, 1, 1, 1, 1, 1, 3];
    let ok_entries = isolate_ok_entries();
    let results: Vec<u32> =
        ok_entries.iter().map(|entry_formats| entry_formats.num_of_cases().unwrap()).collect();
    assert_eq!(expect, results);
}

#[test]
fn import_csv_to_plan_builder() {
    assert_eq!(plan_builder().len(), 16);
}

#[test]
fn build_and_remove_blank_fnsku() {
    let mut p = plan_builder();
    p.set_keep_error(true);
    let builds = p.build();
    println!("{:?}", builds);
    let plan = builds.unwrap();
    assert_eq!(plan.len(), 12);
    let mut q = plan_builder();
    q.remove_entries_without_fnskus();
    assert_eq!(q.len(), 15);
}

#[test]
fn every_row_has_its_outcome() {
    let outcomes: Vec<Option<ErrorKind>> = records()
        .iter()
        .map(|x| Entry::from_csv_record(&raw_fields(x)).err())
        .collect();
    let mut expected: Vec<Option<ErrorKind>> = vec![None; 16];
    expected[4] = Some(ErrorKind::MissingFnsku);
    expected[7] = Some(ErrorKind::NonDivisibleCaseQt);
    expected[11] = Some(ErrorKind::InvalidPackType);
    expected[14] = Some(ErrorKind::MissingGroup);
    assert_eq!(outcomes, expected);
}

#[test]
fn dimensions_and_weights_come_from_the_cells() {
    let entries = isolate_ok_entries();
    let first = &entries[0];
    assert_eq!(first.try_case_length(), Some(13));
    assert_eq!(first.try_case_width(), Some(8));
    assert_eq!(first.try_case_height(), Some(7));
    assert_eq!(first.try_case_gram_weight(), Some(5081));
    assert_eq!(entries[1].try_unit_gram_weight(), Some(227));
    assert_eq!(entries[3].try_unit_gram_weight(), Some(567));
    assert_eq!(entries[11].try_case_length(), Some(9));
    assert_eq!(entries[11].try_case_width(), Some(8));
    assert_eq!(entries[11].try_case_height(), Some(7));
}
