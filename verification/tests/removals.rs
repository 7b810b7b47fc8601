use staging_plan::removals::{is_white_space, trim, CsvRemShipParser};

fn row(tracking: &str) -> CsvRemShipParser {
    CsvRemShipParser {
        carrier: "UPS".to_string(),
        disposition: "Sellable".to_string(),
        fnsku: "ABCDEFGHIJ".to_string(),
        merchant_sku: "SKU-1".to_string(),
        order_id: "R1".to_string(),
        removal_type: "Return".to_string(),
        request_date: "2023-01-01".to_string(),
        shipment_date: "2023-01-02".to_string(),
        shipped_quantity: 2,
        tracking: tracking.to_string(),
    }
}

#[test]
fn a_cell_without_a_comma_is_one_number() {
    assert_eq!(row("1Z999").split_tracking_numbers(), vec!["1Z999"]);
    assert_eq!(row("  1Z999 ").split_tracking_numbers(), vec!["1Z999"]);
    assert_eq!(row("").split_tracking_numbers(), vec![""]);
}

#[test]
fn numbers_are_split_at_commas_and_trimmed() {
    assert_eq!(row("1Z1, 1Z2 ,1Z3").split_tracking_numbers(), vec!["1Z1", "1Z2", "1Z3"]);
    assert_eq!(row("a,,b,").split_tracking_numbers(), vec!["a", "", "b"]);
    assert_eq!(row(",").split_tracking_numbers(), vec![""]);
}

#[test]
fn a_part_that_occurs_twice_is_given_once() {
    assert_eq!(row("1Z1,1Z2,1Z1,1Z2,1Z3").split_tracking_numbers(), vec!["1Z1", "1Z2", "1Z3"]);
}

#[test]
fn parts_are_told_apart_before_they_are_trimmed() {
    assert_eq!(row("1Z1, 1Z1").split_tracking_numbers(), vec!["1Z1", "1Z1"]);
}

#[test]
fn split_agrees_with_the_machine_up_to_order() {
    for text in ["x, y ,z", "é,ü ,é", " , ,", "\t1\u{a0},\u{3000}2\n", "a,b,a, a", "no comma"] {
        let mut expected: Vec<&str> = Vec::new();
        for part in text.split(',') {
            if !expected.contains(&part) {
                expected.push(part);
            }
        }
        let expected: Vec<&str> = expected.into_iter().map(|p| p.trim()).collect();
        assert_eq!(row(text).split_tracking_numbers(), expected, "{:?}", text);
    }
}

#[test]
fn split_tracking_numbers() {
    for text in ["1Z1", "1Z1,1Z2", "", ",,,"] {
        let parser = row(text);
        let splits = parser.split_tracking_numbers();
        assert!(!splits.is_empty());
    }
}

#[test]
fn trim_agrees_with_the_machine() {
    for text in ["", " ", "a", " a", "a ", "  a b  ", "\u{2003}x\u{2003}", "\u{200b}x", "\u{85}y\u{1680}"] {
        assert_eq!(trim(text), text.trim(), "{:?}", text);
    }
}

#[test]
fn white_space_agrees_with_the_machine() {
    for code in 0u32..0x11_0000 {
        if let Some(c) = char::from_u32(code) {
            assert_eq!(is_white_space(c), c.is_whitespace(), "{:#x}", code);
        }
    }
}
