use packing_interface::rects::{all_distinct, index_of_size, total_of};
use packing_interface::request::{parse_request, Field, ParseError};
use packing_interface::types::{ParseOutput, Rectangle};

fn rect(width: i32, height: i32, quantity: i32) -> Rectangle {
    Rectangle { width, height, quantity }
}

fn faults(w: &str, n: &str, k: &str, autofill: bool, text: &str) -> Vec<ParseError> {
    parse_request(w, n, k, autofill, text).unwrap_err()
}

#[test]
fn two_lines_without_targets() {
    let out = parse_request("10", "", "", false, "5 3 2\n4 2 1").unwrap();
    assert_eq!(
        out,
        ParseOutput {
            width: 10,
            quantity: -1,
            types: -1,
            autofill: false,
            rects: vec![rect(5, 3, 2), rect(4, 2, 1)],
            input_types: 2,
            min_height: 2,
            max_height: 3,
        }
    );
    assert_eq!(total_of(&out.rects), Some(3));
    assert!(out.is_valid());
}

#[test]
fn blank_lines_and_white_space_are_passed_over() {
    let out = parse_request("10", "3", "2", false, "\n  5 3 2 \r\n\n\t4\u{a0}2   1\n\n").unwrap();
    assert_eq!(out.rects, vec![rect(5, 3, 2), rect(4, 2, 1)]);
    assert_eq!(out.quantity, 3);
    assert_eq!(out.types, 2);
    assert_eq!(out.input_types, 2);
}

#[test]
fn empty_text_gives_an_empty_request() {
    let out = parse_request("7", "", "", true, "").unwrap();
    assert_eq!(out.rects, vec![]);
    assert_eq!(out.input_types, 0);
    assert_eq!(out.min_height, i32::MAX);
    assert_eq!(out.max_height, i32::MIN);
    assert!(out.autofill);
    assert!(out.is_valid());
}

#[test]
fn a_size_declared_twice_is_one_type() {
    let out = parse_request("10", "6", "2", false, "5 3 2\n4 2 1\n5 3 3").unwrap();
    assert_eq!(out.rects, vec![rect(5, 3, 5), rect(4, 2, 1)]);
    assert_eq!(out.input_types, 2);
}

#[test]
fn width_faults_end_the_reading() {
    assert_eq!(faults("", "x", "y", false, "bad"), vec![ParseError::WidthMissing]);
    assert_eq!(faults("ten", "", "", false, ""), vec![ParseError::WidthNotInteger]);
    assert_eq!(faults(" 10", "", "", false, ""), vec![ParseError::WidthNotInteger]);
    assert_eq!(faults("0", "", "", false, ""), vec![ParseError::WidthNotPositive]);
    assert_eq!(faults("-4", "", "", false, ""), vec![ParseError::WidthNotPositive]);
}

#[test]
fn target_faults() {
    assert_eq!(faults("10", "-1", "x", false, "bad"), vec![ParseError::QuantityNegative]);
    assert_eq!(faults("10", "x", "", false, "bad"), vec![ParseError::QuantityNotInteger]);
    assert_eq!(
        faults("10", "x", "y", false, "bad"),
        vec![ParseError::QuantityNotInteger, ParseError::TypesNotInteger]
    );
    assert_eq!(
        faults("10", "x", "-2", false, "bad"),
        vec![ParseError::QuantityNotInteger, ParseError::TypesNegative]
    );
    assert_eq!(faults("10", "3", "-2", false, ""), vec![ParseError::TypesNegative]);
    assert_eq!(faults("10", "3", "2.5", false, ""), vec![ParseError::TypesNotInteger]);
    assert!(parse_request("10", "0", "0", false, "").is_ok());
}

#[test]
fn line_faults_are_all_collected() {
    let text = "5 3\nx 3 2\n5 y 2\n5 3 q\n0 3 2\n5 -3 2\n5 3 0\n11 3 2\n1 2 3 4\n2 2 2";
    assert_eq!(
        faults("10", "", "", false, text),
        vec![
            ParseError::FieldCount { line: 1, found: 2 },
            ParseError::NotAnInteger { line: 2, field: Field::X },
            ParseError::NotAnInteger { line: 3, field: Field::Y },
            ParseError::NotAnInteger { line: 4, field: Field::Q },
            ParseError::NotPositive { line: 5 },
            ParseError::NotPositive { line: 6 },
            ParseError::NotPositive { line: 7 },
            ParseError::TooWide { line: 8, width: 11, limit: 10 },
            ParseError::FieldCount { line: 9, found: 4 },
        ]
    );
}

#[test]
fn the_first_bad_word_of_a_line_is_named() {
    assert_eq!(
        faults("10", "", "", false, "a b c"),
        vec![ParseError::NotAnInteger { line: 1, field: Field::X }]
    );
    assert_eq!(
        faults("10", "", "", false, "\n\n1 b c"),
        vec![ParseError::NotAnInteger { line: 3, field: Field::Y }]
    );
}

#[test]
fn too_many_copies() {
    assert_eq!(
        faults("10", "", "", false, "1 1 2147483647\n2 2 1\n3 3 1"),
        vec![ParseError::TooManyCopies { line: 2 }, ParseError::TooManyCopies { line: 3 }]
    );
    assert!(parse_request("10", "", "", false, "1 1 2147483646\n1 1 1").is_ok());
}

#[test]
fn targets_must_be_met_without_autofill() {
    assert_eq!(
        faults("10", "4", "", false, "5 3 2\n4 2 1"),
        vec![ParseError::QuantityMismatch { found: 3, expected: 4 }]
    );
    assert_eq!(
        faults("10", "", "3", false, "5 3 2\n4 2 1"),
        vec![ParseError::TypesMismatch { found: 2, expected: 3 }]
    );
    assert_eq!(
        faults("10", "1", "1", false, "5 3 2\n4 2 1"),
        vec![
            ParseError::QuantityMismatch { found: 3, expected: 1 },
            ParseError::TypesMismatch { found: 2, expected: 1 },
        ]
    );
    // Copies on a line that is too wide are counted, its type is not.
    assert_eq!(
        faults("4", "3", "2", false, "5 3 2\n4 2 1"),
        vec![
            ParseError::TooWide { line: 1, width: 5, limit: 4 },
            ParseError::TypesMismatch { found: 1, expected: 2 },
        ]
    );
}

#[test]
fn targets_bound_the_request_with_autofill() {
    assert!(parse_request("10", "5", "3", true, "5 3 2\n4 2 1").is_ok());
    assert!(parse_request("10", "3", "2", true, "5 3 2\n4 2 1").is_ok());
    assert_eq!(
        faults("10", "", "1", true, "5 3 2\n4 2 1"),
        vec![ParseError::TooManyTypes { found: 2, expected: 1 }]
    );
    assert_eq!(
        faults("10", "4", "5", true, "5 3 2\n4 2 1"),
        vec![ParseError::TypesExceedCopies { copies: 1, types: 3 }]
    );
    assert_eq!(
        faults("10", "2", "2", true, "5 3 2\n4 2 1"),
        vec![ParseError::TooManyRectangles { found: 3, expected: 2 }]
    );
    assert_eq!(
        faults("10", "2", "1", true, "5 3 2\n4 2 1"),
        vec![
            ParseError::TooManyTypes { found: 2, expected: 1 },
            ParseError::TooManyRectangles { found: 3, expected: 2 },
        ]
    );
    // Fewer copies asked for than declared is a fault whatever the types.
    assert_eq!(
        faults("10", "2", "", true, "5 3 2\n4 2 1"),
        vec![ParseError::TooManyRectangles { found: 3, expected: 2 }]
    );
    assert_eq!(
        faults("10", "0", "", true, "1 1 1"),
        vec![ParseError::TooManyRectangles { found: 1, expected: 0 }]
    );
    // No copies are missing, and a type is: it would take one.
    assert_eq!(
        faults("10", "3", "3", true, "5 3 2\n4 2 1"),
        vec![ParseError::TypesExceedCopies { copies: 0, types: 1 }]
    );
    assert!(parse_request("10", "4", "3", true, "5 3 2\n4 2 1").is_ok());
    // With one target only the other is not looked at.
    assert!(parse_request("10", "3", "", true, "5 3 2\n4 2 1").is_ok());
    assert!(parse_request("10", "9", "", true, "5 3 2\n4 2 1").is_ok());
    assert!(parse_request("10", "", "9", true, "5 3 2\n4 2 1").is_ok());
}

#[test]
fn missing_copies_need_a_type() {
    assert_eq!(
        faults("10", "5", "", true, ""),
        vec![ParseError::NoTypeForCopies { copies: 5 }]
    );
    assert_eq!(
        faults("10", "5", "0", true, "\n \n"),
        vec![ParseError::NoTypeForCopies { copies: 5 }]
    );
    // A type that is asked for can take them; whether a size is left for it
    // is found when the request is completed.
    assert!(parse_request("10", "5", "1", true, "").is_ok());
    assert!(parse_request("10", "0", "", true, "").is_ok());
    // Without autofill the fault is the mismatch.
    assert_eq!(
        faults("10", "5", "", false, ""),
        vec![ParseError::QuantityMismatch { found: 0, expected: 5 }]
    );
}

#[test]
fn validity_of_requests() {
    let good = ParseOutput {
        width: 10,
        quantity: 5,
        types: 3,
        autofill: true,
        rects: vec![rect(2, 3, 1)],
        input_types: 1,
        min_height: 3,
        max_height: 3,
    };
    assert!(good.is_valid());
    let with = |f: &dyn Fn(&mut ParseOutput)| {
        let mut r = good.clone();
        f(&mut r);
        r.is_valid()
    };
    assert!(!with(&|r| r.width = 0));
    assert!(!with(&|r| r.width = 1));
    assert!(!with(&|r| r.quantity = -2));
    assert!(!with(&|r| r.types = -2));
    assert!(!with(&|r| r.input_types = 2));
    assert!(!with(&|r| r.min_height = 4));
    assert!(!with(&|r| r.max_height = 2));
    assert!(!with(&|r| r.rects[0].quantity = 0));
    assert!(!with(&|r| r.rects[0].height = 0));
    assert!(!with(&|r| {
        r.rects.push(rect(2, 3, 4));
        r.input_types = 2;
    }));
    assert!(!with(&|r| {
        r.rects.push(rect(3, 3, i32::MAX));
        r.input_types = 2;
    }));
    assert!(with(&|r| {
        r.rects.push(rect(3, 3, i32::MAX - 1));
        r.input_types = 2;
    }));
}

#[test]
fn looking_sizes_up() {
    let list = vec![rect(5, 3, 2), rect(4, 2, 1), rect(5, 3, 9)];
    assert_eq!(index_of_size(&list, 5, 3), 0);
    assert_eq!(index_of_size(&list, 4, 2), 1);
    assert_eq!(index_of_size(&list, 3, 5), 3);
    assert_eq!(index_of_size(&vec![], 3, 5), 0);
    assert!(!all_distinct(&list));
    assert!(all_distinct(&list[..2].to_vec()));
    assert!(all_distinct(&vec![]));
    assert_eq!(total_of(&list), Some(12));
    assert_eq!(total_of(&vec![]), Some(0));
    assert_eq!(total_of(&vec![rect(1, 1, i32::MAX), rect(1, 2, 1)]), None);
}
