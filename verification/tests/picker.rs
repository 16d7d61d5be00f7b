use thufood::canteen::{parse_canteens, Canteen, CanteenPicker, LoadCanteensError};

fn canteen(name: &str, weight: u64) -> Canteen {
    Canteen {
        name: String::from(name),
        weight,
    }
}

#[test]
fn single_item_catalog_always_returns_that_item() {
    let picker = CanteenPicker::new(vec![canteen("紫荆园", 1)]);
    for _ in 0..100 {
        assert_eq!(picker.pick().name, "紫荆园");
    }
}

#[test]
fn single_item_catalog_every_sample_returns_it() {
    let picker = CanteenPicker::new(vec![canteen("桃李园", 7)]);
    assert_eq!(picker.total_weight(), 7);
    for sample in 1..=7 {
        assert_eq!(picker.pick_with_sample(sample).name, "桃李园");
        assert_eq!(picker.pick_index(sample), 0);
    }
}

#[test]
fn tie_catalog_full_sample_range_never_out_of_range() {
    let picker = CanteenPicker::new(vec![canteen("A", 1), canteen("B", 1), canteen("B", 1)]);
    assert_eq!(picker.total_weight(), 3);
    assert_eq!(picker.pick_index(1), 0);
    assert_eq!(picker.pick_index(2), 1);
    assert_eq!(picker.pick_index(3), 2);
    assert_eq!(picker.pick_with_sample(1).name, "A");
    assert_eq!(picker.pick_with_sample(2).name, "B");
    assert_eq!(picker.pick_with_sample(3).name, "B");
    for _ in 0..100 {
        let idx = picker.pick_index(1 + rand::random::<u64>() % 3);
        assert!(idx < picker.len());
    }
}

#[test]
fn samples_map_to_cumulative_ranges() {
    let picker = CanteenPicker::new(vec![canteen("A", 2), canteen("B", 3), canteen("C", 1)]);
    assert_eq!(picker.total_weight(), 6);
    assert_eq!(picker.pick_with_sample(1).name, "A");
    assert_eq!(picker.pick_with_sample(2).name, "A");
    assert_eq!(picker.pick_with_sample(3).name, "B");
    assert_eq!(picker.pick_with_sample(4).name, "B");
    assert_eq!(picker.pick_with_sample(5).name, "B");
    assert_eq!(picker.pick_with_sample(6).name, "C");
}

#[test]
fn pick_frequencies_follow_weights() {
    let picker = CanteenPicker::new(vec![canteen("A", 1), canteen("B", 3)]);
    let mut a = 0u32;
    let mut b = 0u32;
    for _ in 0..20000 {
        match picker.pick().name.as_str() {
            "A" => a += 1,
            "B" => b += 1,
            other => panic!("picked an unknown canteen: {}", other),
        }
    }
    assert_eq!(a + b, 20000);
    // B has three times A's weight: its count must clearly dominate.
    assert!(b > a, "B picked {} times, A picked {} times", b, a);
    assert!(a > 0, "a weight-1 item must still be picked sometimes");
}

#[test]
fn canteen_at_returns_catalog_order() {
    let picker = CanteenPicker::new(vec![canteen("A", 1), canteen("B", 2)]);
    assert_eq!(picker.len(), 2);
    assert_eq!(picker.canteen_at(0).name, "A");
    assert_eq!(picker.canteen_at(1).name, "B");
    assert_eq!(picker.canteen_at(1).weight, 2);
}

#[test]
fn parse_canteens_reads_name_weight_lines() {
    let canteens = parse_canteens("紫荆园,3\n桃李园,2\n清芬园,1").unwrap();
    assert_eq!(canteens.len(), 3);
    assert_eq!(canteens[0].name, "紫荆园");
    assert_eq!(canteens[0].weight, 3);
    assert_eq!(canteens[1].name, "桃李园");
    assert_eq!(canteens[1].weight, 2);
    assert_eq!(canteens[2].name, "清芬园");
    assert_eq!(canteens[2].weight, 1);
}

#[test]
fn parse_canteens_accepts_trailing_newline_and_crlf() {
    let canteens = parse_canteens("A,1\r\nB,2\n").unwrap();
    assert_eq!(canteens.len(), 2);
    assert_eq!(canteens[0].name, "A");
    assert_eq!(canteens[0].weight, 1);
    assert_eq!(canteens[1].name, "B");
    assert_eq!(canteens[1].weight, 2);
}

#[test]
fn parse_canteens_rejects_line_without_comma() {
    match parse_canteens("A,1\nbogus\nB,2") {
        Err(LoadCanteensError::Format(msg)) => {
            assert_eq!(msg, "invalid format: \"bogus\"");
        }
        other => panic!("expected a format error, got {:?}", other.is_ok()),
    }
}

#[test]
fn parse_canteens_rejects_line_with_two_commas() {
    match parse_canteens("A,1,2") {
        Err(LoadCanteensError::Format(msg)) => {
            assert_eq!(msg, "invalid format: \"A,1,2\"");
        }
        _ => panic!("expected a format error"),
    }
}

#[test]
fn parse_canteens_rejects_bad_weight() {
    match parse_canteens("A,one") {
        Err(LoadCanteensError::Format(msg)) => {
            assert_eq!(msg, "invalid canteen weight: \"one\"");
        }
        _ => panic!("expected a weight error"),
    }
}

#[test]
fn parse_canteens_rejects_overflowing_weight() {
    match parse_canteens("A,99999999999999999999999999") {
        Err(LoadCanteensError::Format(msg)) => {
            assert_eq!(msg, "invalid canteen weight: \"99999999999999999999999999\"");
        }
        _ => panic!("expected a weight error"),
    }
}

#[test]
fn parse_canteens_rejects_empty_input() {
    assert!(matches!(parse_canteens(""), Err(LoadCanteensError::NoCanteens)));
}
