use png_to_jpg::filter::{paeth_predictor, unfilter_row, FilterType};

const ALL_FILTERS: [FilterType; 5] = [
    FilterType::Plain,
    FilterType::Sub,
    FilterType::Up,
    FilterType::Average,
    FilterType::Paeth,
];

fn left_of(row: &[u8], i: usize) -> u8 {
    if i >= 3 {
        row[i - 3]
    } else {
        0
    }
}

/// The forward filter, as an encoder applies it.
fn filter_row(filter: FilterType, raw: &[u8], previous: &[u8]) -> Vec<u8> {
    let mut stored = Vec::new();
    for i in 0..raw.len() {
        let prediction = filter.predict(left_of(raw, i), previous[i], left_of(previous, i));
        stored.push(raw[i].wrapping_sub(prediction));
    }
    stored
}

#[test]
fn paeth_with_equal_neighbours_returns_left() {
    for v in 0..=255u8 {
        assert_eq!(paeth_predictor(v, v, v), v);
    }
}

#[test]
fn paeth_prefers_left_then_up_then_upper_left() {
    // p = 10 + 20 - 15 = 15; pa = 5, pb = 5, pc = 0
    assert_eq!(paeth_predictor(10, 20, 15), 15);
    // p = 10 + 20 - 10 = 20; pa = 10, pb = 0, pc = 10
    assert_eq!(paeth_predictor(10, 20, 10), 20);
    // p = 30 + 20 - 20 = 30; pa = 0, pb = 10, pc = 10
    assert_eq!(paeth_predictor(30, 20, 20), 30);
    // p = 4 + 6 - 5 = 5; pa = 1, pb = 1, pc = 0
    assert_eq!(paeth_predictor(4, 6, 5), 5);
    // p = 3 + 5 - 4 = 4; pa = 1, pb = 1, pc = 0: the upper left is strictly closest
    assert_eq!(paeth_predictor(3, 5, 4), 4);
    // p = 1 + 3 - 0 = 4; pa = 3, pb = 1, pc = 4
    assert_eq!(paeth_predictor(1, 3, 0), 3);
    // a tie between left and up goes to left: p = 2 + 4 - 3 = 3; pa = 1, pb = 1, pc = 0 -> c
    assert_eq!(paeth_predictor(2, 4, 3), 3);
    // a tie between left and up with a farther upper left: p = 0 + 0 - 0
    assert_eq!(paeth_predictor(0, 0, 0), 0);
    // pa == pb < pc: left wins. p = 5 + 7 - 6 = 6 gives pc = 0, so take c far away:
    // a = 100, b = 100, c = 0: p = 200; pa = 100, pb = 100, pc = 200
    assert_eq!(paeth_predictor(100, 100, 0), 100);
    // pb == pc < pa: up wins. a = 0, b = 50, c = 50: p = 0; pa = 0 -> left
    assert_eq!(paeth_predictor(0, 50, 50), 0);
    // a = 255, b = 0, c = 255: p = 0; pa = 255, pb = 0, pc = 255
    assert_eq!(paeth_predictor(255, 0, 255), 0);
    // a = 0, b = 255, c = 0: p = 255; pa = 255, pb = 0, pc = 255
    assert_eq!(paeth_predictor(0, 255, 0), 255);
    // a = 255, b = 255, c = 0: p = 510; pa = 255, pb = 255, pc = 510
    assert_eq!(paeth_predictor(255, 255, 0), 255);
    // a = 0, b = 0, c = 255: p = -255; pa = 255, pb = 255, pc = 510
    assert_eq!(paeth_predictor(0, 0, 255), 0);
}

#[test]
fn paeth_matches_the_definition_on_every_input() {
    for a in (0..=255u8).step_by(5) {
        for b in (0..=255u8).step_by(3) {
            for c in 0..=255u8 {
                let p = a as i32 + b as i32 - c as i32;
                let pa = (p - a as i32).abs();
                let pb = (p - b as i32).abs();
                let pc = (p - c as i32).abs();
                let expected = if pa <= pb && pa <= pc {
                    a
                } else if pb <= pc {
                    b
                } else {
                    c
                };
                assert_eq!(paeth_predictor(a, b, c), expected);
            }
        }
    }
}

#[test]
fn filter_type_bytes_zero_to_four() {
    assert_eq!(FilterType::from_byte(0), Some(FilterType::Plain));
    assert_eq!(FilterType::from_byte(1), Some(FilterType::Sub));
    assert_eq!(FilterType::from_byte(2), Some(FilterType::Up));
    assert_eq!(FilterType::from_byte(3), Some(FilterType::Average));
    assert_eq!(FilterType::from_byte(4), Some(FilterType::Paeth));
    for byte in 5..=255u8 {
        assert_eq!(FilterType::from_byte(byte), None);
    }
}

#[test]
fn predictions_of_each_filter() {
    assert_eq!(FilterType::Plain.predict(7, 8, 9), 0);
    assert_eq!(FilterType::Sub.predict(7, 8, 9), 7);
    assert_eq!(FilterType::Up.predict(7, 8, 9), 8);
    assert_eq!(FilterType::Average.predict(7, 8, 9), 7);
    assert_eq!(FilterType::Average.predict(255, 255, 0), 255);
    assert_eq!(FilterType::Average.predict(255, 254, 0), 254);
    assert_eq!(FilterType::Paeth.predict(10, 20, 10), 20);
}

#[test]
fn reconstruct_wraps_around_at_256() {
    // 250 + 10 = 260 -> 4
    assert_eq!(FilterType::Sub.reconstruct(250, 10, 0, 0), 4);
    assert_eq!(FilterType::Up.reconstruct(250, 0, 10, 0), 4);
    // 250 + (200 + 100) / 2 = 400 -> 144
    assert_eq!(FilterType::Average.reconstruct(250, 200, 100, 0), 144);
    // 250 + paeth(10, 10, 10) = 260 -> 4
    assert_eq!(FilterType::Paeth.reconstruct(250, 10, 10, 10), 4);
    assert_eq!(FilterType::Sub.reconstruct(255, 1, 0, 0), 0);
    assert_eq!(FilterType::Sub.reconstruct(255, 255, 0, 0), 254);
    assert_eq!(FilterType::Plain.reconstruct(250, 200, 100, 50), 250);
}

#[test]
fn unfilter_plain_row_copies() {
    let row = unfilter_row(FilterType::Plain, &[1, 2, 3, 4, 5, 6], &[9, 9, 9, 9, 9, 9]);
    assert_eq!(row, vec![1, 2, 3, 4, 5, 6]);
}

#[test]
fn unfilter_sub_row_adds_the_pixel_to_the_left() {
    let row = unfilter_row(FilterType::Sub, &[1, 2, 3, 4, 5, 6, 250, 0, 1], &[0; 9]);
    assert_eq!(row, vec![1, 2, 3, 5, 7, 9, 255, 7, 10]);
}

#[test]
fn unfilter_up_row_adds_the_row_above() {
    let row = unfilter_row(FilterType::Up, &[1, 2, 3, 250], &[10, 20, 30, 10]);
    assert_eq!(row, vec![11, 22, 33, 4]);
}

#[test]
fn unfilter_average_row() {
    // i = 0..2: left = 0, so prediction = up / 2
    // i = 3: left = row[0] = 6, up = 40: prediction 23
    let row = unfilter_row(FilterType::Average, &[1, 2, 3, 4], &[10, 21, 30, 40]);
    assert_eq!(row, vec![6, 12, 18, 27]);
}

#[test]
fn unfilter_paeth_row() {
    // i = 0..2: left = upper left = 0, so the predictor is the byte above
    // i = 3: a = row[0] = 11, b = 40, c = 10: p = 41, pa = 30, pb = 1, pc = 31 -> b
    let row = unfilter_row(FilterType::Paeth, &[1, 2, 3, 4], &[10, 20, 30, 40]);
    assert_eq!(row, vec![11, 22, 33, 44]);
}

#[test]
fn unfilter_empty_row() {
    for filter in ALL_FILTERS {
        assert_eq!(unfilter_row(filter, &[], &[]), Vec::<u8>::new());
    }
}

#[test]
fn unfilter_inverts_filter_on_first_row() {
    let raw = [10u8, 20, 30, 250, 251, 252, 0, 1, 2, 128, 127, 255];
    let zeros = [0u8; 12];
    for filter in ALL_FILTERS {
        let stored = filter_row(filter, &raw, &zeros);
        assert_eq!(unfilter_row(filter, &stored, &zeros), raw.to_vec());
    }
}

#[test]
fn unfilter_inverts_filter_below_another_row() {
    let raw = [10u8, 20, 30, 250, 251, 252, 0, 1, 2, 128, 127, 255];
    let above = [200u8, 100, 50, 25, 12, 6, 3, 1, 0, 255, 254, 253];
    for filter in ALL_FILTERS {
        let stored = filter_row(filter, &raw, &above);
        assert_eq!(unfilter_row(filter, &stored, &above), raw.to_vec());
    }
}

#[test]
fn unfilter_inverts_filter_on_a_single_pixel() {
    // only the first three bytes of a row: no byte has a left neighbour
    let raw = [200u8, 100, 50];
    let above = [7u8, 250, 130];
    for filter in ALL_FILTERS {
        let stored = filter_row(filter, &raw, &above);
        assert_eq!(unfilter_row(filter, &stored, &above), raw.to_vec());
        let stored = filter_row(filter, &raw, &[0, 0, 0]);
        assert_eq!(unfilter_row(filter, &stored, &[0, 0, 0]), raw.to_vec());
    }
}

#[test]
fn first_three_bytes_have_no_left_neighbour() {
    // under Sub the first pixel is stored as it is
    let row = unfilter_row(FilterType::Sub, &[100, 101, 102], &[50, 50, 50]);
    assert_eq!(row, vec![100, 101, 102]);
    // under Paeth the first pixel is predicted by the byte above
    let row = unfilter_row(FilterType::Paeth, &[1, 1, 1], &[50, 60, 70]);
    assert_eq!(row, vec![51, 61, 71]);
    // under Average the first pixel is predicted by half the byte above
    let row = unfilter_row(FilterType::Average, &[1, 1, 1], &[50, 61, 255]);
    assert_eq!(row, vec![26, 31, 128]);
}

#[test]
fn row_above_may_be_longer_than_the_scanline() {
    let row = unfilter_row(FilterType::Up, &[1, 2, 3], &[10, 20, 30, 40, 50]);
    assert_eq!(row, vec![11, 22, 33]);
}
