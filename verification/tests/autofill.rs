use packing_interface::autofill::{
    add_copies, create_input, first_free, offer_size, AutofillError,
};
use packing_interface::rects::all_distinct;
use packing_interface::request::parse_request;
use packing_interface::types::{JsonInput, ParseOutput, Rectangle};

fn rect(width: i32, height: i32, quantity: i32) -> Rectangle {
    Rectangle { width, height, quantity }
}

fn request(width: i32, quantity: i32, types: i32, rects: Vec<Rectangle>) -> ParseOutput {
    let min_height = rects.iter().map(|r| r.height).min().unwrap_or(i32::MAX);
    let max_height = rects.iter().map(|r| r.height).max().unwrap_or(i32::MIN);
    ParseOutput {
        width,
        quantity,
        types,
        autofill: true,
        input_types: rects.len() as i32,
        rects,
        min_height,
        max_height,
    }
}

fn check_result(input: &ParseOutput, out: &JsonInput) {
    assert_eq!(out.width_of_bin, input.width);
    assert_eq!(out.autofill_option, input.autofill);
    assert_eq!(out.number_of_types_of_rectangles, out.rectangle_list.len());
    let total: i64 = out.rectangle_list.iter().map(|r| r.quantity as i64).sum();
    assert_eq!(out.number_of_rectangles as i64, total);
    assert!(all_distinct(&out.rectangle_list));
    for (i, r) in out.rectangle_list.iter().enumerate() {
        assert!(r.quantity >= 1);
        if i < input.rects.len() {
            assert_eq!((r.width, r.height), (input.rects[i].width, input.rects[i].height));
            assert!(r.quantity >= input.rects[i].quantity);
        } else {
            assert!(1 <= r.width && r.width <= input.width);
            assert!(input.min_height <= r.height && r.height <= input.max_height);
        }
    }
}

#[test]
fn three_types_and_five_copies() {
    let input = request(10, 5, 3, vec![rect(2, 3, 1)]);
    for _ in 0..50 {
        let out = create_input(&input).unwrap();
        check_result(&input, &out);
        assert_eq!(out.number_of_types_of_rectangles, 3);
        assert_eq!(out.rectangle_list.len(), 3);
        assert_eq!(out.number_of_rectangles, 5);
        assert_eq!(out.rectangle_list[0].width, 2);
        assert_eq!(out.rectangle_list[0].height, 3);
        assert_eq!(out.rectangle_list[1].height, 3);
        assert_eq!(out.rectangle_list[2].height, 3);
    }
}

#[test]
fn five_types_where_two_sizes_are_left() {
    // Widths 1 to 3, height 4 only: three sizes, one of them declared.
    let input = request(3, -1, 5, vec![rect(1, 4, 1)]);
    assert_eq!(create_input(&input), Err(AutofillError::TooFewSizes));
    // With two sizes left, two more types are the most.
    let input = request(3, -1, 3, vec![rect(1, 4, 1)]);
    let out = create_input(&input).unwrap();
    check_result(&input, &out);
    let mut sizes: Vec<(i32, i32)> =
        out.rectangle_list.iter().map(|r| (r.width, r.height)).collect();
    sizes.sort();
    assert_eq!(sizes, vec![(1, 4), (2, 4), (3, 4)]);
    let input = request(3, -1, 4, vec![rect(1, 4, 1)]);
    assert_eq!(create_input(&input), Err(AutofillError::TooFewSizes));
}

#[test]
fn a_full_range_is_filled_every_time() {
    // 6 widths by 4 heights, two sizes declared: all 24 must come.
    let input = request(6, -1, 24, vec![rect(1, 2, 1), rect(6, 5, 1)]);
    for _ in 0..20 {
        let out = create_input(&input).unwrap();
        check_result(&input, &out);
        assert_eq!(out.rectangle_list.len(), 24);
        assert_eq!(out.number_of_rectangles, 24);
    }
}

#[test]
fn without_autofill_the_request_is_handed_on() {
    let mut input = request(10, 99, 99, vec![rect(5, 3, 2), rect(4, 2, 1)]);
    input.autofill = false;
    assert_eq!(
        create_input(&input),
        Ok(JsonInput {
            width_of_bin: 10,
            number_of_rectangles: 3,
            number_of_types_of_rectangles: 2,
            autofill_option: false,
            rectangle_list: vec![rect(5, 3, 2), rect(4, 2, 1)],
        })
    );
}

#[test]
fn without_targets_nothing_is_added() {
    let input = request(10, -1, -1, vec![rect(5, 3, 2), rect(4, 2, 1)]);
    let out = create_input(&input).unwrap();
    assert_eq!(out.rectangle_list, input.rects);
    assert_eq!(out.number_of_rectangles, 3);
    assert_eq!(out.number_of_types_of_rectangles, 2);
    assert!(out.autofill_option);
    let input = request(10, 3, 2, vec![rect(5, 3, 2), rect(4, 2, 1)]);
    assert_eq!(create_input(&input).unwrap().rectangle_list, input.rects);
}

#[test]
fn copies_only() {
    let input = request(10, 40, -1, vec![rect(5, 3, 2), rect(4, 2, 1)]);
    for _ in 0..20 {
        let out = create_input(&input).unwrap();
        check_result(&input, &out);
        assert_eq!(out.rectangle_list.len(), 2);
        assert_eq!(out.number_of_rectangles, 40);
    }
}

#[test]
fn types_only_take_one_copy_each() {
    let input = request(10, -1, 6, vec![rect(5, 3, 2), rect(4, 2, 7)]);
    let out = create_input(&input).unwrap();
    check_result(&input, &out);
    assert_eq!(out.rectangle_list.len(), 6);
    assert_eq!(out.rectangle_list[0], rect(5, 3, 2));
    assert_eq!(out.rectangle_list[1], rect(4, 2, 7));
    assert_eq!(out.number_of_rectangles, 13);
    for r in &out.rectangle_list[2..] {
        assert_eq!(r.quantity, 1);
    }
}

#[test]
fn refusals() {
    let mut bad = request(10, 5, 3, vec![rect(2, 3, 1)]);
    bad.input_types = 7;
    assert_eq!(create_input(&bad), Err(AutofillError::Malformed));
    assert_eq!(
        create_input(&request(10, -1, 1, vec![rect(5, 3, 2), rect(4, 2, 1)])),
        Err(AutofillError::TooManyTypes)
    );
    assert_eq!(
        create_input(&request(10, -1, 1, vec![])),
        Err(AutofillError::TooFewSizes)
    );
    assert_eq!(
        create_input(&request(10, 2, -1, vec![rect(5, 3, 2), rect(4, 2, 1)])),
        Err(AutofillError::TooManyCopies)
    );
    assert_eq!(
        create_input(&request(10, 4, 4, vec![rect(5, 3, 2), rect(4, 2, 1)])),
        Err(AutofillError::TooFewCopies)
    );
    assert_eq!(
        create_input(&request(10, 3, 3, vec![rect(5, 3, 2), rect(4, 2, 1)])),
        Err(AutofillError::TooFewCopies)
    );
    assert_eq!(create_input(&request(10, 3, -1, vec![])), Err(AutofillError::NothingToFill));
    assert!(create_input(&request(10, 0, 0, vec![])).is_ok());
}

#[test]
fn chance_is_at_work() {
    // 1000 widths, nine sizes to draw and a thousand copies to deal out:
    // were nothing drawn, every run would give the same list.
    let input = request(1000, 1000, 10, vec![rect(1, 1, 1)]);
    let first = create_input(&input).unwrap();
    check_result(&input, &first);
    let mut widths_differ = false;
    let mut copies_differ = false;
    for _ in 0..20 {
        let next = create_input(&input).unwrap();
        check_result(&input, &next);
        for (a, b) in first.rectangle_list.iter().zip(next.rectangle_list.iter()) {
            widths_differ |= a.width != b.width;
            copies_differ |= a.quantity != b.quantity;
        }
    }
    assert!(widths_differ);
    assert!(copies_differ);
    let spread = first.rectangle_list.iter().any(|r| r.width > 10);
    assert!(spread);
}

#[test]
fn parsed_requests_are_completed() {
    let input = parse_request("10", "7", "4", true, "5 3 2\n4 2 1").unwrap();
    let out = create_input(&input).unwrap();
    check_result(&input, &out);
    assert_eq!(out.number_of_types_of_rectangles, 4);
    assert_eq!(out.number_of_rectangles, 7);
}

#[test]
fn offering_a_size() {
    let mut list = vec![rect(5, 3, 2)];
    assert!(!offer_size(&mut list, 5, 3));
    assert_eq!(list, vec![rect(5, 3, 2)]);
    assert!(offer_size(&mut list, 3, 5));
    assert_eq!(list, vec![rect(5, 3, 2), rect(3, 5, 1)]);
    assert!(!offer_size(&mut list, 3, 5));
}

#[test]
fn adding_copies() {
    let mut list = vec![rect(5, 3, 2), rect(4, 2, 1)];
    add_copies(&mut list, 1, 6);
    assert_eq!(list, vec![rect(5, 3, 2), rect(4, 2, 7)]);
    add_copies(&mut list, 0, i32::MAX - 2);
    assert_eq!(list[0], rect(5, 3, i32::MAX));
}

#[test]
fn the_first_free_size() {
    // Heights 2 to 4; sizes are numbered (1,2) (1,3) (1,4) (2,2) ...
    let r = request(3, -1, -1, vec![rect(1, 2, 1), rect(1, 4, 1)]);
    assert_eq!(first_free(&r, &r.rects), (1, 3));
    let list = vec![rect(1, 2, 1), rect(1, 4, 1), rect(1, 3, 1)];
    assert_eq!(first_free(&r, &list), (2, 2));
    let list = vec![rect(1, 4, 1), rect(2, 2, 1), rect(1, 3, 1), rect(1, 2, 1)];
    assert_eq!(first_free(&r, &list), (2, 3));
    assert_eq!(first_free(&r, &vec![]), (1, 2));
}
