use sigil_rs::generate_cells;
use sigil_rs::should_fill;
use sigil_rs::Cells;

#[test]
fn new_cells_are_all_empty() {
    let cells = Cells::new();
    assert_eq!(cells.capacity(), 256);
    for index in 0..256 {
        assert!(!cells.get(index));
    }
}

#[test]
fn set_fills_one_cell_only() {
    let mut cells = Cells::new();
    cells.set(5);
    for index in 0..256 {
        assert_eq!(cells.get(index), index == 5);
    }
    cells.set(255);
    cells.set(8);
    cells.set(5);
    for index in 0..256 {
        assert_eq!(cells.get(index), index == 5 || index == 8 || index == 255);
    }
}

#[test]
fn set_keeps_the_neighbours_in_a_byte() {
    let mut cells = Cells::new();
    cells.set(16);
    cells.set(23);
    assert!(cells.get(16));
    assert!(cells.get(23));
    for index in 17..23 {
        assert!(!cells.get(index));
    }
    assert!(!cells.get(15));
    assert!(!cells.get(24));
}

#[test]
fn source_bits_count_from_the_most_significant() {
    let mut source = [0u8; 15];
    source[0] = 0x80;
    assert!(should_fill(0, &source));
    assert!(!should_fill(1, &source));
    assert!(!should_fill(7, &source));

    source[0] = 0x01;
    assert!(!should_fill(0, &source));
    assert!(should_fill(7, &source));
    assert!(!should_fill(8, &source));

    source[1] = 0x40;
    assert!(should_fill(9, &source));
    assert!(!should_fill(8, &source));
    assert!(!should_fill(10, &source));
}

#[test]
fn last_source_bit_is_bit_119() {
    let mut source = [0u8; 15];
    source[14] = 0x01;
    assert!(should_fill(119, &source));
    assert!(!should_fill(118, &source));
    assert!(!should_fill(112, &source));
}

#[test]
fn bits_fill_the_left_half_column_by_column() {
    // Bit 1 is row 1 of column 0; its mirror image is column 4.
    let mut source = [0u8; 15];
    source[0] = 0x40;
    let cells = generate_cells(5, &source);
    for index in 0..256 {
        assert_eq!(cells.get(index), index == 5 || index == 9, "cell {index}");
    }

    // Bit 5 is row 0 of column 1; its mirror image is column 3.
    let mut source = [0u8; 15];
    source[0] = 0x04;
    let cells = generate_cells(5, &source);
    for index in 0..256 {
        assert_eq!(cells.get(index), index == 1 || index == 3, "cell {index}");
    }
}

#[test]
fn middle_column_is_its_own_mirror_image() {
    // Bit 12 is row 2 of column 2, the middle column of five.
    let mut source = [0u8; 15];
    source[1] = 0x08;
    let cells = generate_cells(5, &source);
    for index in 0..256 {
        assert_eq!(cells.get(index), index == 12, "cell {index}");
    }
}

#[test]
fn bits_past_the_left_half_are_ignored() {
    // Five rows read 15 bits: bit 15 and all that follow change nothing.
    let mut source = [0xffu8; 15];
    source[0] = 0;
    source[1] = 0x01;
    let cells = generate_cells(5, &source);
    for index in 0..256 {
        assert!(!cells.get(index), "cell {index}");
    }
}

#[test]
fn one_row_reads_one_bit() {
    let mut source = [0u8; 15];
    let cells = generate_cells(1, &source);
    assert!(!cells.get(0));
    source[0] = 0x80;
    let cells = generate_cells(1, &source);
    for index in 0..256 {
        assert_eq!(cells.get(index), index == 0);
    }
}

#[test]
fn fifteen_rows_read_all_120_bits() {
    let cells = generate_cells(15, &[0xffu8; 15]);
    for index in 0..256 {
        assert_eq!(cells.get(index), index < 225, "cell {index}");
    }

    // Bit 119 is row 14 of column 7, the middle column of fifteen.
    let mut source = [0u8; 15];
    source[14] = 0x01;
    let cells = generate_cells(15, &source);
    for index in 0..256 {
        assert_eq!(cells.get(index), index == 14 * 15 + 7, "cell {index}");
    }
}

#[test]
fn even_grid_has_no_middle_column() {
    // Six rows read 18 bits; bit 17 is row 5 of column 2, mirrored in column 3.
    let mut source = [0u8; 15];
    source[2] = 0x40;
    let cells = generate_cells(6, &source);
    for index in 0..256 {
        assert_eq!(cells.get(index), index == 32 || index == 33, "cell {index}");
    }
    let mut source = [0u8; 15];
    source[2] = 0x20;
    let cells = generate_cells(6, &source);
    for index in 0..256 {
        assert!(!cells.get(index), "cell {index}");
    }
}

#[test]
fn every_grid_is_mirror_symmetric() {
    let sources: [[u8; 15]; 3] = [
        [0x8f, 0x6b, 0xcd, 0x46, 0x21, 0xd3, 0x73, 0xca, 0xde, 0x4e, 0x83, 0x26, 0x27, 0xb4, 0xf6],
        [0xa5; 15],
        [0x01, 0x23, 0x45, 0x67, 0x89, 0xab, 0xcd, 0xef, 0xfe, 0xdc, 0xba, 0x98, 0x76, 0x54, 0x32],
    ];
    for source in sources {
        for rows in 1..=15usize {
            let cells = generate_cells(rows, &source);
            for y in 0..rows {
                for x in 0..rows {
                    assert_eq!(
                        cells.get(y * rows + x),
                        cells.get(y * rows + rows - 1 - x),
                        "rows {rows}, cell ({x}, {y})"
                    );
                }
            }
            for index in rows * rows..256 {
                assert!(!cells.get(index));
            }
        }
    }
}
