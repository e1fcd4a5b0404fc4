use sigil_rs::md5;
use sigil_rs::ConfigError;
use sigil_rs::Rgb;
use sigil_rs::Sigil;
use sigil_rs::Theme;

const TEST_DIGEST: [u8; 16] = [
    0x09, 0x8f, 0x6b, 0xcd, 0x46, 0x21, 0xd3, 0x73, 0xca, 0xde, 0x4e, 0x83, 0x26, 0x27, 0xb4, 0xf6,
];

#[test]
fn md5_matches_known_digests() {
    assert_eq!(md5(b"test"), TEST_DIGEST);
    assert_eq!(
        md5(b""),
        [
            0xd4, 0x1d, 0x8c, 0xd9, 0x8f, 0x00, 0xb2, 0x04, 0xe9, 0x80, 0x09, 0x98, 0xec, 0xf8,
            0x42, 0x7e
        ]
    );
    assert_eq!(
        md5(b"abc"),
        [
            0x90, 0x01, 0x50, 0x98, 0x3c, 0xd2, 0x4f, 0xb0, 0xd6, 0x96, 0x3f, 0x7d, 0x28, 0xe1,
            0x7f, 0x72
        ]
    );
}

#[test]
fn default_theme_has_five_rows_and_seven_colours() {
    let theme = Theme::default();
    assert_eq!(theme.rows, 5);
    assert_eq!(
        theme.foreground,
        vec![
            Rgb([45, 79, 255]),
            Rgb([254, 180, 44]),
            Rgb([226, 121, 234]),
            Rgb([30, 179, 253]),
            Rgb([232, 77, 65]),
            Rgb([49, 203, 115]),
            Rgb([141, 69, 170]),
        ]
    );
    assert_eq!(theme.background, Rgb([224, 224, 224]));
    assert_eq!(theme.validate(), Ok(()));
}

#[test]
fn selector_picks_by_remainder() {
    let theme = Theme::default();
    assert_eq!(theme.pick_foreground(0), Rgb([45, 79, 255]));
    assert_eq!(theme.pick_foreground(6), Rgb([141, 69, 170]));
    assert_eq!(theme.pick_foreground(7), Rgb([45, 79, 255]));
    assert_eq!(theme.pick_foreground(9), Rgb([226, 121, 234]));
    // 255 = 36 * 7 + 3
    assert_eq!(theme.pick_foreground(255), Rgb([30, 179, 253]));

    let single = Theme {
        rows: 5,
        foreground: vec![Rgb([1, 2, 3])],
        background: Rgb([0, 0, 0]),
    };
    assert_eq!(single.pick_foreground(0), Rgb([1, 2, 3]));
    assert_eq!(single.pick_foreground(200), Rgb([1, 2, 3]));
}

#[test]
fn from_hash_uses_byte_zero_for_the_colour_and_the_rest_for_the_grid() {
    let sigil = Sigil::from_hash(&Theme::default(), TEST_DIGEST).unwrap();
    assert_eq!(sigil.foreground(), Rgb([226, 121, 234]));
    assert_eq!(sigil.background(), Rgb([224, 224, 224]));
    assert_eq!(sigil.rows(), 5);
    assert_eq!(
        sigil.display().to_string(),
        "XXXXX\n-X-X-\n-XXX-\n-----\nXXXXX\n"
    );

    let mut digest = TEST_DIGEST;
    digest[0] = 0;
    let other = Sigil::from_hash(&Theme::default(), digest).unwrap();
    assert_eq!(other.foreground(), Rgb([45, 79, 255]));
    assert_eq!(other.display().to_string(), sigil.display().to_string());
}

#[test]
fn generate_hashes_the_input() {
    let generated = Sigil::generate(&Theme::default(), b"test").unwrap();
    let from_digest = Sigil::from_hash(&Theme::default(), TEST_DIGEST).unwrap();
    assert_eq!(generated.foreground(), from_digest.foreground());
    assert_eq!(generated.background(), from_digest.background());
    assert_eq!(generated.rows(), from_digest.rows());
    assert_eq!(
        generated.display().to_string(),
        from_digest.display().to_string()
    );
}

#[test]
fn empty_input_is_valid() {
    let sigil = Sigil::generate(&Theme::default(), b"").unwrap();
    // The digest of the empty input starts with d4 1d 8c: 0xd4 = 212 = 30 * 7 + 2.
    assert_eq!(sigil.foreground(), Rgb([226, 121, 234]));
    // 1d = 00011101, 8c = 10001100: the columns read 00011, 10110, 00110.
    assert_eq!(
        sigil.display().to_string(),
        "-X-X-\n-----\n-XXX-\nXXXXX\nX---X\n"
    );
}

#[test]
fn generation_is_deterministic() {
    let theme = Theme::default();
    for input in ["", "test", "username", "56fbc0305cea0414184cb72b"] {
        let first = Sigil::generate(&theme, input.as_bytes()).unwrap();
        let second = Sigil::generate(&theme, input.as_bytes()).unwrap();
        assert_eq!(first.foreground(), second.foreground());
        assert_eq!(first.background(), second.background());
        assert_eq!(first.rows(), second.rows());
        for index in 0..256 {
            assert_eq!(first.cells().get(index), second.cells().get(index));
        }
    }
}

#[test]
fn is_filled_reads_column_and_row() {
    let sigil = Sigil::from_hash(&Theme::default(), TEST_DIGEST).unwrap();
    let expected = ["XXXXX", "-X-X-", "-XXX-", "-----", "XXXXX"];
    for y in 0..5u16 {
        for x in 0..5u16 {
            let want = expected[y as usize].as_bytes()[x as usize] == b'X';
            assert_eq!(sigil.is_filled(x, y), want, "cell ({x}, {y})");
            assert_eq!(sigil.is_filled(4 - x, y), want, "mirror of ({x}, {y})");
        }
    }
}

#[test]
fn rows_out_of_range_are_a_configuration_error() {
    for rows in [0u16, 16, 17, 255, 256, u16::MAX] {
        let theme = Theme {
            rows,
            ..Default::default()
        };
        assert_eq!(theme.validate(), Err(ConfigError::RowsOutOfRange));
        assert_eq!(
            Sigil::from_hash(&theme, TEST_DIGEST).err(),
            Some(ConfigError::RowsOutOfRange)
        );
        assert_eq!(
            Sigil::generate(&theme, b"test").err(),
            Some(ConfigError::RowsOutOfRange)
        );
    }
}

#[test]
fn every_row_count_from_one_to_fifteen_is_accepted() {
    for rows in 1..=15u16 {
        let theme = Theme {
            rows,
            ..Default::default()
        };
        let sigil = Sigil::generate(&theme, b"test").unwrap();
        assert_eq!(sigil.rows(), rows);
        let text = sigil.display().to_string();
        assert_eq!(text.len(), usize::from(rows) * (usize::from(rows) + 1));
        for line in text.lines() {
            assert_eq!(line.len(), usize::from(rows));
            let mirrored: String = line.chars().rev().collect();
            assert_eq!(line, mirrored);
        }
    }
}

#[test]
fn fifteen_rows_use_the_whole_digest() {
    let theme = Theme {
        rows: 15,
        ..Default::default()
    };
    let mut digest = [0u8; 16];
    digest[15] = 0x01;
    let sigil = Sigil::from_hash(&theme, digest).unwrap();
    for y in 0..15u16 {
        for x in 0..15u16 {
            assert_eq!(sigil.is_filled(x, y), x == 7 && y == 14, "cell ({x}, {y})");
        }
    }
}

#[test]
fn empty_palette_is_a_configuration_error() {
    let theme = Theme {
        rows: 5,
        foreground: vec![],
        background: Rgb([224, 224, 224]),
    };
    assert_eq!(theme.validate(), Err(ConfigError::EmptyPalette));
    assert_eq!(
        Sigil::from_hash(&theme, TEST_DIGEST).err(),
        Some(ConfigError::EmptyPalette)
    );
    assert_eq!(
        Sigil::generate(&theme, b"test").err(),
        Some(ConfigError::EmptyPalette)
    );
}

#[test]
fn rows_are_checked_before_the_palette() {
    let theme = Theme {
        rows: 0,
        foreground: vec![],
        background: Rgb([224, 224, 224]),
    };
    assert_eq!(theme.validate(), Err(ConfigError::RowsOutOfRange));
    assert_eq!(
        Sigil::from_hash(&theme, TEST_DIGEST).err(),
        Some(ConfigError::RowsOutOfRange)
    );
}

#[test]
fn invert_swaps_the_colours_and_nothing_else() {
    let sigil = Sigil::from_hash(&Theme::default(), TEST_DIGEST).unwrap();
    let inverted = sigil.clone().invert();
    assert_eq!(inverted.foreground(), Rgb([224, 224, 224]));
    assert_eq!(inverted.background(), Rgb([226, 121, 234]));
    assert_eq!(inverted.rows(), 5);
    assert_eq!(inverted.display().to_string(), sigil.display().to_string());
    for index in 0..256 {
        assert_eq!(inverted.cells().get(index), sigil.cells().get(index));
    }
}

#[test]
fn invert_twice_is_the_identity() {
    let sigil = Sigil::generate(&Theme::default(), b"username").unwrap();
    let back = sigil.clone().invert().invert();
    assert_eq!(back.foreground(), sigil.foreground());
    assert_eq!(back.background(), sigil.background());
    assert_eq!(back.rows(), sigil.rows());
    for index in 0..256 {
        assert_eq!(back.cells().get(index), sigil.cells().get(index));
    }
}

#[test]
fn clone_copies_every_field() {
    let sigil = Sigil::generate(&Theme::default(), b"username").unwrap();
    let copy = sigil.clone();
    assert_eq!(copy.foreground(), sigil.foreground());
    assert_eq!(copy.background(), sigil.background());
    assert_eq!(copy.rows(), sigil.rows());
    assert_eq!(copy.display().to_string(), sigil.display().to_string());
}
