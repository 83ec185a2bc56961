use platformer::tiles::{decode_tiles, MapError};

#[test]
fn decode_two_by_two_grid() {
    assert_eq!(decode_tiles(b"\n0,1,\n1,0\n"), Ok(vec![0, 1, 1, 0, 2]));
}

#[test]
fn decode_empty_data_is_one_empty_tile_and_no_width() {
    assert_eq!(decode_tiles(b""), Ok(vec![0, 0]));
}

#[test]
fn decode_adds_up_the_digits_of_a_code() {
    assert_eq!(decode_tiles(b"12,305,9"), Ok(vec![3, 8, 9, 0]));
}

#[test]
fn decode_without_line_break_has_width_zero() {
    assert_eq!(decode_tiles(b"1,2,3"), Ok(vec![1, 2, 3, 0]));
}

#[test]
fn decode_line_break_before_any_comma_fixes_no_width() {
    assert_eq!(decode_tiles(b"\n\n1,2,3,\n4,5,6\n"), Ok(vec![1, 2, 3, 4, 5, 6, 3]));
}

#[test]
fn decode_width_comes_from_the_first_row_only() {
    assert_eq!(decode_tiles(b"1,2,\n3,4,5,6,\n7\n"), Ok(vec![1, 2, 3, 4, 5, 6, 7, 2]));
}

#[test]
fn decode_line_break_inside_a_code_separates_nothing() {
    assert_eq!(decode_tiles(b"1\n2,3"), Ok(vec![3, 3, 0]));
}

#[test]
fn decode_trailing_comma_opens_an_empty_tile() {
    assert_eq!(decode_tiles(b"7,"), Ok(vec![7, 0, 0]));
}

#[test]
fn decode_rejects_a_letter() {
    assert_eq!(decode_tiles(b"1,a,2"), Err(MapError::NotANumber { byte: 97 }));
}

#[test]
fn decode_rejects_a_carriage_return() {
    assert_eq!(decode_tiles(b"1,2,\r\n3,4"), Err(MapError::NotANumber { byte: 13 }));
}

#[test]
fn decode_rejects_a_space_and_a_minus() {
    assert_eq!(decode_tiles(b"1, 2"), Err(MapError::NotANumber { byte: 32 }));
    assert_eq!(decode_tiles(b"-1"), Err(MapError::NotANumber { byte: 45 }));
}

#[test]
fn decode_rejects_bytes_next_to_the_digits() {
    assert_eq!(decode_tiles(b"/"), Err(MapError::NotANumber { byte: 47 }));
    assert_eq!(decode_tiles(b":"), Err(MapError::NotANumber { byte: 58 }));
    assert_eq!(decode_tiles(b"0"), Ok(vec![0, 0]));
    assert_eq!(decode_tiles(b"9"), Ok(vec![9, 0]));
}

#[test]
fn decode_reports_the_first_fault() {
    assert_eq!(decode_tiles(b"x,y"), Err(MapError::NotANumber { byte: 120 }));
    let mut data = vec![b'9'; 29];
    data.push(b'x');
    assert_eq!(decode_tiles(&data), Err(MapError::TileTooLarge));
    let mut data = vec![b'x'];
    data.extend(vec![b'9'; 29]);
    assert_eq!(decode_tiles(&data), Err(MapError::NotANumber { byte: 120 }));
}

#[test]
fn decode_tile_code_fills_a_byte_exactly() {
    // 28 nines add up to 252, and a three makes 255.
    let mut data = vec![b'9'; 28];
    data.push(b'3');
    assert_eq!(decode_tiles(&data), Ok(vec![255, 0]));
}

#[test]
fn decode_tile_code_over_a_byte_is_refused() {
    let mut data = vec![b'9'; 28];
    data.push(b'4');
    assert_eq!(decode_tiles(&data), Err(MapError::TileTooLarge));
}

#[test]
fn decode_zeros_never_overflow() {
    let mut data = vec![b'9'; 28];
    data.push(b'3');
    data.extend(vec![b'0'; 1000]);
    assert_eq!(decode_tiles(&data), Ok(vec![255, 0]));
}

#[test]
fn decode_widest_row_has_255_tiles() {
    let mut data = Vec::new();
    for _ in 0..255 {
        data.extend_from_slice(b"1,");
    }
    data.push(b'\n');
    let mut expected = vec![1u8; 255];
    expected.push(0);
    expected.push(255);
    assert_eq!(decode_tiles(&data), Ok(expected));
}

#[test]
fn decode_row_of_256_tiles_is_too_wide() {
    let mut data = Vec::new();
    for _ in 0..256 {
        data.extend_from_slice(b"1,");
    }
    data.push(b'\n');
    assert_eq!(decode_tiles(&data), Err(MapError::TooWide));
}

#[test]
fn decode_256_tiles_without_line_break_have_width_zero() {
    let mut data = Vec::new();
    for _ in 0..256 {
        data.extend_from_slice(b"1,");
    }
    let mut expected = vec![1u8; 256];
    expected.push(0);
    expected.push(0);
    assert_eq!(decode_tiles(&data), Ok(expected));
}

#[test]
fn decode_large_map_counts_only_the_first_row() {
    // 30 rows of 20 tiles: 599 commas in all.
    let mut data = vec![b'\n'];
    for row in 0..30 {
        for col in 0..20 {
            data.push(b'1');
            if row != 29 || col != 19 {
                data.push(b',');
            }
        }
        data.push(b'\n');
    }
    let mut expected = vec![1u8; 600];
    expected.push(20);
    assert_eq!(decode_tiles(&data), Ok(expected));
}

#[test]
fn decode_list_has_one_entry_more_than_commas_plus_one() {
    let data = b"1,2,\n3,4,\n5,6\n";
    let commas = data.iter().filter(|b| **b == b',').count();
    assert_eq!(decode_tiles(data).unwrap().len(), commas + 2);
}
