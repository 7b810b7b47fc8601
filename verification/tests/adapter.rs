use staging_plan::adapter::{coerce_count, Column, RawField};
use staging_plan::entry::{Entry, EntryParser};
use staging_plan::error::ErrorKind;
use staging_plan::measure::Measure;

const HEADERS: [&str; 12] = [
    "Info",
    "FNSKU",
    "Quantity",
    "Pack Type",
    "Staging Group",
    "Unit Weight",
    "Case QT",
    "Case Length",
    "Case Width",
    "Case Height",
    "Case Weight",
    "Total Cases",
];

fn cell(header: &str, text: &str) -> RawField {
    let number = text.parse::<f32>().ok().map(|v| Measure::from_bits(v.to_bits()));
    RawField::new(header.to_string(), text.to_string(), number)
}

fn row(cells: [&str; 12]) -> Vec<RawField> {
    let record = csv::StringRecord::from(cells.to_vec());
    HEADERS.iter().zip(record.iter()).map(|(h, t)| cell(h, t)).collect()
}

fn bits(value: f32) -> Option<u32> {
    Some(value.to_bits())
}

#[test]
fn whole_numbers_are_read_as_the_machine_reads_them() {
    let texts = [
        "0", "7", "10", "007", "+5", "4294967295", "4294967296", "99999999999999999999", "-1", "-0",
        "", "+", "++1", "1.0", "1e3", " 1", "1 ", "12a", "a", "٣", "1_000", "0000000000000000000000042",
    ];
    for text in texts {
        assert_eq!(coerce_count(text), text.parse::<u32>().ok(), "{:?}", text);
    }
}

#[test]
fn whole_numbers_behind_the_hex_mark_are_read_to_the_base_16() {
    assert_eq!(coerce_count("0x10"), Some(16));
    assert_eq!(coerce_count("0x1f"), Some(31));
    assert_eq!(coerce_count("0x1F"), Some(31));
    assert_eq!(coerce_count("0x+a"), Some(10));
    assert_eq!(coerce_count("0xffffffff"), Some(u32::MAX));
    assert_eq!(coerce_count("0x100000000"), None);
    assert_eq!(coerce_count("0x"), None);
    assert_eq!(coerce_count("0xg"), None);
    assert_eq!(coerce_count("0X10"), None);
    assert_eq!(coerce_count("1f"), None);
    let texts = ["0", "9", "a", "F", "7fffffff", "+12", "zz", "", "+", "123456789"];
    for text in texts {
        assert_eq!(coerce_count(&format!("0x{}", text)), u32::from_str_radix(text, 16).ok());
    }
}

#[test]
fn columns_go_by_their_labels_and_by_their_field_names() {
    let names = [
        ("Info", "id", Column::Id),
        ("FNSKU", "fnsku", Column::Fnsku),
        ("Quantity", "units", Column::Units),
        ("Pack Type", "pack_type", Column::PackType),
        ("Staging Group", "staging_group", Column::StagingGroup),
        ("Unit Weight", "unit_weight", Column::UnitWeight),
        ("Case QT", "case_qt", Column::CaseQt),
        ("Case Length", "case_length", Column::CaseLength),
        ("Case Width", "case_width", Column::CaseWidth),
        ("Case Height", "case_height", Column::CaseHeight),
        ("Case Weight", "case_weight", Column::CaseWeight),
        ("Total Cases", "total_cases", Column::TotalCases),
    ];
    for (label, field, column) in names {
        assert_eq!(Column::from_header(label), Some(column));
        assert_eq!(Column::from_header(field), Some(column));
    }
    assert_eq!(Column::from_header("Total Quantity"), Some(Column::Units));
    assert_eq!(Column::from_header("info"), None);
    assert_eq!(Column::from_header("Fnsku"), None);
    assert_eq!(Column::from_header("Case"), None);
    assert_eq!(Column::from_header(""), None);
    assert_eq!(Column::from_header("Quantity "), None);
}

#[test]
fn a_row_is_read_cell_by_cell() {
    let draft = EntryParser::from_string_record(&row([
        "1", "ABCDEFGHIJ", "10", "Packed", "G1", "0.5", "5", "10", "5", "3", "2.0", "2",
    ]))
    .unwrap();
    assert_eq!(draft.id, Some(1));
    assert_eq!(draft.fnsku.as_deref(), Some("ABCDEFGHIJ"));
    assert_eq!(draft.units, Some(10));
    assert_eq!(draft.pack_type.as_deref(), Some("Packed"));
    assert_eq!(draft.staging_group.as_deref(), Some("G1"));
    assert_eq!(draft.unit_weight.map(|m| m.to_bits()), bits(0.5));
    assert_eq!(draft.case_qt, Some(5));
    assert_eq!(draft.case_length.map(|m| m.to_bits()), bits(10.0));
    assert_eq!(draft.case_width.map(|m| m.to_bits()), bits(5.0));
    assert_eq!(draft.case_height.map(|m| m.to_bits()), bits(3.0));
    assert_eq!(draft.case_weight.map(|m| m.to_bits()), bits(2.0));
    assert_eq!(draft.total_cases, Some(2));
}

#[test]
fn blank_and_unreadable_cells_leave_their_fields_absent() {
    let draft = EntryParser::from_string_record(&row([
        "one", "", "1.5", "", "", "heavy", "-5", "", "long", "", "", "x",
    ]))
    .unwrap();
    assert_eq!(draft.id, None);
    assert!(draft.fnsku.is_none());
    assert_eq!(draft.units, None);
    assert!(draft.pack_type.is_none());
    assert!(draft.staging_group.is_none());
    assert!(draft.unit_weight.is_none());
    assert_eq!(draft.case_qt, None);
    assert!(draft.case_length.is_none());
    assert!(draft.case_width.is_none());
    assert!(draft.case_height.is_none());
    assert!(draft.case_weight.is_none());
    assert_eq!(draft.total_cases, None);
    assert!(matches!(draft.build(), Err(ErrorKind::MissingId)));
}

#[test]
fn cells_under_unknown_names_are_passed_over() {
    let cells = vec![cell("Notes", "fragile"), cell("Info", "4"), cell("Colour", "7")];
    let draft = EntryParser::from_string_record(&cells).unwrap();
    assert_eq!(draft.id, Some(4));
    assert!(draft.fnsku.is_none());
    assert_eq!(draft.units, None);
    let empty = EntryParser::from_string_record(&Vec::new()).unwrap();
    assert_eq!(empty.id, None);
}

#[test]
fn the_units_may_stand_under_total_quantity() {
    let cells = vec![cell("Total Quantity", "12")];
    assert_eq!(EntryParser::from_string_record(&cells).unwrap().units, Some(12));
    let both = vec![cell("Quantity", "3"), cell("Total Quantity", "12"), cell("Quantity", "")];
    assert_eq!(EntryParser::from_string_record(&both).unwrap().units, Some(12));
}

#[test]
fn a_measurement_is_taken_as_it_was_read() {
    let cells = vec![RawField::new(
        "Unit Weight".to_string(),
        "about a pound".to_string(),
        Some(Measure::from_bits(1.0f32.to_bits())),
    )];
    let draft = EntryParser::from_string_record(&cells).unwrap();
    assert_eq!(draft.unit_weight.map(|m| m.to_bits()), bits(1.0));
    let unread = vec![RawField::new("Unit Weight".to_string(), "1.0".to_string(), None)];
    assert!(EntryParser::from_string_record(&unread).unwrap().unit_weight.is_none());
}

#[test]
fn a_packed_row_becomes_a_packed_entry() {
    let entry: Entry = Entry::from_csv_record(&row([
        "1", "ABCDEFGHIJ", "10", "Packed", "", "", "5", "10", "5", "3", "2.0", "",
    ]))
    .unwrap();
    assert!(entry.is_packed());
    assert_eq!(entry.num_of_cases(), Ok(2));
    assert_eq!(entry.try_case_length(), Some(10));
    assert_eq!(entry.try_case_width(), Some(5));
    assert_eq!(entry.try_case_height(), Some(3));
}

#[test]
fn a_packed_row_with_uneven_units_is_turned_down() {
    let outcome = Entry::from_csv_record(&row([
        "1", "ABCDEFGHIJ", "7", "Packed", "", "", "5", "10", "5", "3", "2.0", "",
    ]));
    assert!(matches!(outcome, Err(ErrorKind::NonDivisibleCaseQt)));
}

#[test]
fn a_loose_row_becomes_a_loose_entry() {
    let entry = Entry::from_csv_record(&row([
        "2", "ABCDEFGHIJ", "3", "Loose", "G1", "0.5", "", "", "", "", "", "",
    ]))
    .unwrap();
    assert!(entry.is_loose());
    assert_eq!(entry.try_unit_gram_weight(), Some(227));
}

#[test]
fn a_row_without_pack_type_is_turned_down_for_it() {
    let outcome = Entry::from_csv_record(&row([
        "2", "ABCDEFGHIJ", "3", "", "G1", "0.5", "5", "1", "1", "1", "1", "",
    ]));
    assert!(matches!(outcome, Err(ErrorKind::MissingPackType)));
}

#[test]
fn whole_numbers_are_read_as_a_csv_record_gives_them() {
    let texts = [
        "0", "7", "10", "007", "+5", "4294967295", "4294967296", "-1", "+", "1.0", "1e3", " 1",
        "12a", "0x10", "0x1F", "0xff", "0x+a", "0x", "0xg", "0X10", "0x100000000", "0xffffffff", "x",
        "0x0x1", "00x1",
    ];
    for text in texts {
        let record = csv::StringRecord::from(vec![text]);
        let expected: Option<u32> = match record.deserialize::<(Option<u32>,)>(None) {
            Ok((value,)) => value,
            Err(_) => None,
        };
        assert_eq!(coerce_count(text), expected, "{:?}", text);
    }
}

#[test]
fn texts_in_a_draft_are_never_blank() {
    let draft = EntryParser::from_string_record(&row([
        "1", "", "10", "", "", "", "", "", "", "", "", "",
    ]))
    .unwrap();
    assert!(draft.fnsku.is_none());
    assert!(draft.pack_type.is_none());
    assert!(draft.staging_group.is_none());
    assert!(matches!(draft.build(), Err(ErrorKind::MissingFnsku)));
}
