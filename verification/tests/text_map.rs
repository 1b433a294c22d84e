use terrain::terrain::{Cliffs, Plain, Ramp, Side, Tile};
use terrain::text_map::{parse, parse_text_cells, Glyph, ParseError, TextCell};

fn glyph(sign: &str) -> Glyph {
    match sign {
        "/" => Glyph::Slash,
        "\\" => Glyph::Backslash,
        "-" => Glyph::Dash,
        "|" => Glyph::Bar,
        other => panic!("no ramp glyph: {other}"),
    }
}

fn flat(level: u32) -> Tile {
    Tile::Plain(Plain {
        level,
        cliffs: Cliffs { top: false, bottom: false, left: false, right: false },
    })
}

#[test]
fn test_parse_text_cells() {
    let terrain: &'static str = r#"
        1 1 1 1 1 1
        1 \ | 1 1 1
        1 - 2 2 1 1
        1 1 2 2 1 1
        1 1 1 1 1 1
        1 1 1 1 1 1
    "#;

    let cells = parse_text_cells(terrain).unwrap();

    let ramp = |s: &str| TextCell::Ramp(glyph(s));
    let plain = |level: u32| TextCell::Plain(level);

    assert_eq!(cells,
        vec![
            vec![plain(1), plain(1), plain(1), plain(1), plain(1), plain(1)],
            vec![plain(1), ramp("\\"), ramp("|"), plain(1), plain(1), plain(1)],
            vec![plain(1), ramp("-"), plain(2), plain(2), plain(1), plain(1)],
            vec![plain(1), plain(1), plain(2), plain(2), plain(1), plain(1)],
            vec![plain(1), plain(1), plain(1), plain(1), plain(1), plain(1)],
            vec![plain(1), plain(1), plain(1), plain(1), plain(1), plain(1)],
        ]
    );
}

#[test]
fn test_parse() {
    let terrain: &'static str = r#"
        1 1 1 1 1 1
        1 \ | 1 1 1
        1 - 2 2 1 1
        1 1 2 2 1 1
        1 1 1 1 1 1
        1 1 1 1 1 1
    "#;

    let result = parse(terrain).unwrap();

    println!("{result:?}");
}

#[test]
fn parse_resolves_the_sample_map() {
    let tiles = parse("1 1 1 1\n1 \\ | 1\n1 - 2 2\n1 1 2 2").unwrap();
    assert_eq!(tiles.len(), 4);
    assert_eq!(
        tiles[1],
        vec![
            flat(1),
            Tile::Ramp(Ramp { bottom_level: 1, top_level: 2, bottom_side: Side::TopLeft }),
            Tile::Ramp(Ramp { bottom_level: 1, top_level: 2, bottom_side: Side::Top }),
            flat(1),
        ]
    );
    assert_eq!(
        tiles[2],
        vec![
            flat(1),
            Tile::Ramp(Ramp { bottom_level: 1, top_level: 2, bottom_side: Side::Left }),
            flat(2),
            Tile::Plain(Plain {
                level: 2,
                cliffs: Cliffs { top: true, bottom: false, left: false, right: false },
            }),
        ]
    );
    assert_eq!(
        tiles[3],
        vec![
            flat(1),
            flat(1),
            Tile::Plain(Plain {
                level: 2,
                cliffs: Cliffs { top: false, bottom: false, left: true, right: false },
            }),
            flat(2),
        ]
    );
}

#[test]
fn blank_lines_and_outer_white_space_are_skipped() {
    let cells = parse_text_cells("\n\n  1 2\t\r\n   \n\u{a0}3 4\u{3000}\n\n").unwrap();
    assert_eq!(
        cells,
        vec![
            vec![TextCell::Plain(1), TextCell::Plain(2)],
            vec![TextCell::Plain(3), TextCell::Plain(4)],
        ]
    );
}

#[test]
fn an_empty_text_is_an_empty_grid() {
    assert_eq!(parse_text_cells(""), Ok(vec![]));
    assert_eq!(parse(" \n \n"), Ok(vec![]));
}

#[test]
fn levels_are_decimal_numbers_that_fit_in_u32() {
    assert_eq!(
        parse_text_cells("0 007 +12 4294967295"),
        Ok(vec![vec![
            TextCell::Plain(0),
            TextCell::Plain(7),
            TextCell::Plain(12),
            TextCell::Plain(4294967295),
        ]])
    );
    assert_eq!(
        parse_text_cells("1 4294967296"),
        Err(ParseError::SyntaxError { row: 0, col: 1 })
    );
    assert_eq!(
        parse_text_cells("99999999999999999999999999"),
        Err(ParseError::SyntaxError { row: 0, col: 0 })
    );
    assert_eq!(parse_text_cells("+"), Err(ParseError::SyntaxError { row: 0, col: 0 }));
    assert_eq!(parse_text_cells("-1"), Err(ParseError::SyntaxError { row: 0, col: 0 }));
    assert_eq!(parse_text_cells("++1"), Err(ParseError::SyntaxError { row: 0, col: 0 }));
    assert_eq!(parse_text_cells("1 2a"), Err(ParseError::SyntaxError { row: 0, col: 1 }));
    assert_eq!(parse_text_cells("\u{661}"), Err(ParseError::SyntaxError { row: 0, col: 0 }));
}

#[test]
fn an_unknown_token_is_a_syntax_error_with_its_place() {
    assert_eq!(parse("1 1\n\n1 x"), Err(ParseError::SyntaxError { row: 1, col: 1 }));
    assert_eq!(parse("1 //"), Err(ParseError::SyntaxError { row: 0, col: 1 }));
}

#[test]
fn two_spaces_leave_an_empty_token() {
    assert_eq!(parse("1  1"), Err(ParseError::SyntaxError { row: 0, col: 1 }));
    assert_eq!(parse("1\t1"), Err(ParseError::SyntaxError { row: 0, col: 0 }));
}

#[test]
fn the_first_bad_token_wins_over_a_ragged_row() {
    assert_eq!(parse("1 1\n1\n1 ?"), Err(ParseError::SyntaxError { row: 2, col: 1 }));
}

#[test]
fn rows_of_different_length_are_a_shape_error() {
    assert_eq!(parse("1 1\n1 1 1"), Err(ParseError::ShapeError { row: 1, width: 3 }));
    assert_eq!(parse("1 1\n1 1\n1\n1 1 1"), Err(ParseError::ShapeError { row: 2, width: 1 }));
}

#[test]
fn a_ragged_row_wins_over_a_misplaced_ramp() {
    assert_eq!(parse("- 1\n1"), Err(ParseError::ShapeError { row: 1, width: 1 }));
}

#[test]
fn slash_climbs_from_bottom_left_to_top_right() {
    let tiles = parse("1 1 2\n1 / 1\n1 1 1").unwrap();
    assert_eq!(
        tiles[1][1],
        Tile::Ramp(Ramp { bottom_level: 1, top_level: 2, bottom_side: Side::BottomLeft })
    );
}

#[test]
fn slash_climbs_from_top_right_to_bottom_left() {
    let tiles = parse("1 1 1\n1 / 1\n2 1 1").unwrap();
    assert_eq!(
        tiles[1][1],
        Tile::Ramp(Ramp { bottom_level: 1, top_level: 2, bottom_side: Side::TopRight })
    );
}

#[test]
fn slash_between_equal_levels_is_a_level_error() {
    assert_eq!(
        parse("1 1 1\n1 / 1\n1 1 1"),
        Err(ParseError::LevelError { row: 1, col: 1, glyph: Glyph::Slash })
    );
}

#[test]
fn each_glyph_looks_at_its_own_two_neighbours() {
    let tiles = parse("3 9 9\n9 \\ 9\n9 9 5").unwrap();
    assert_eq!(
        tiles[1][1],
        Tile::Ramp(Ramp { bottom_level: 3, top_level: 5, bottom_side: Side::TopLeft })
    );
    let tiles = parse("5 9 9\n9 \\ 9\n9 9 3").unwrap();
    assert_eq!(
        tiles[1][1],
        Tile::Ramp(Ramp { bottom_level: 3, top_level: 5, bottom_side: Side::BottomRight })
    );
    let tiles = parse("1 - 2").unwrap();
    assert_eq!(
        tiles[0][1],
        Tile::Ramp(Ramp { bottom_level: 1, top_level: 2, bottom_side: Side::Left })
    );
    let tiles = parse("2 - 1").unwrap();
    assert_eq!(
        tiles[0][1],
        Tile::Ramp(Ramp { bottom_level: 1, top_level: 2, bottom_side: Side::Right })
    );
    let tiles = parse("1\n|\n2").unwrap();
    assert_eq!(
        tiles[1][0],
        Tile::Ramp(Ramp { bottom_level: 1, top_level: 2, bottom_side: Side::Top })
    );
    let tiles = parse("2\n|\n1").unwrap();
    assert_eq!(
        tiles[1][0],
        Tile::Ramp(Ramp { bottom_level: 1, top_level: 2, bottom_side: Side::Bottom })
    );
}

#[test]
fn a_ramp_at_the_rim_is_a_placement_error() {
    assert_eq!(
        parse("- 1"),
        Err(ParseError::PlacementError { row: 0, col: 0, glyph: Glyph::Dash })
    );
    assert_eq!(
        parse("1 |\n1 1"),
        Err(ParseError::PlacementError { row: 0, col: 1, glyph: Glyph::Bar })
    );
    assert_eq!(
        parse("1 1\n1 /"),
        Err(ParseError::PlacementError { row: 1, col: 1, glyph: Glyph::Slash })
    );
    assert_eq!(
        parse("\\"),
        Err(ParseError::PlacementError { row: 0, col: 0, glyph: Glyph::Backslash })
    );
}

#[test]
fn a_ramp_next_to_a_ramp_is_a_level_error() {
    assert_eq!(
        parse("1 - - 2"),
        Err(ParseError::LevelError { row: 0, col: 1, glyph: Glyph::Dash })
    );
}

#[test]
fn the_first_misplaced_ramp_is_reported() {
    assert_eq!(
        parse("1 1 1\n1 - 1\n| 1 1"),
        Err(ParseError::LevelError { row: 1, col: 1, glyph: Glyph::Dash })
    );
}

#[test]
fn the_higher_of_two_cells_carries_the_cliff() {
    let none = Cliffs { top: false, bottom: false, left: false, right: false };
    let tiles = parse("2 1").unwrap();
    assert_eq!(
        tiles[0],
        vec![
            Tile::Plain(Plain { level: 2, cliffs: Cliffs { right: true, ..none } }),
            Tile::Plain(Plain { level: 1, cliffs: none }),
        ]
    );
    let tiles = parse("1 2").unwrap();
    assert_eq!(
        tiles[0],
        vec![
            Tile::Plain(Plain { level: 1, cliffs: none }),
            Tile::Plain(Plain { level: 2, cliffs: Cliffs { left: true, ..none } }),
        ]
    );
    let tiles = parse("1\n2").unwrap();
    assert_eq!(tiles[0][0], Tile::Plain(Plain { level: 1, cliffs: none }));
    assert_eq!(
        tiles[1][0],
        Tile::Plain(Plain { level: 2, cliffs: Cliffs { top: true, ..none } })
    );
    let tiles = parse("2\n1").unwrap();
    assert_eq!(
        tiles[0][0],
        Tile::Plain(Plain { level: 2, cliffs: Cliffs { bottom: true, ..none } })
    );
}

#[test]
fn a_drop_of_two_levels_is_no_cliff() {
    let none = Cliffs { top: false, bottom: false, left: false, right: false };
    let tiles = parse("3 1\n0 0").unwrap();
    assert_eq!(tiles[0][0], Tile::Plain(Plain { level: 3, cliffs: none }));
    assert_eq!(
        tiles[0][1],
        Tile::Plain(Plain { level: 1, cliffs: Cliffs { bottom: true, ..none } })
    );
    assert_eq!(tiles[1][0], Tile::Plain(Plain { level: 0, cliffs: none }));
}

#[test]
fn a_peak_has_four_cliffs() {
    let tiles = parse("1 1 1\n1 2 1\n1 1 1").unwrap();
    assert_eq!(
        tiles[1][1],
        Tile::Plain(Plain {
            level: 2,
            cliffs: Cliffs { top: true, bottom: true, left: true, right: true },
        })
    );
}

#[test]
fn parsing_twice_gives_the_same_result() {
    let text = "1 1 1 1\n1 \\ | 1\n1 - 2 2\n1 1 2 2";
    assert_eq!(parse(text), parse(text));
    assert_eq!(parse("1 1\n1"), parse("1 1\n1"));
}

#[test]
fn a_glyph_is_written_by_its_sign() {
    assert_eq!(Glyph::Slash.sign(), '/');
    assert_eq!(Glyph::Backslash.sign(), '\\');
    assert_eq!(Glyph::Dash.sign(), '-');
    assert_eq!(Glyph::Bar.sign(), '|');
    for glyph in [Glyph::Slash, Glyph::Backslash, Glyph::Dash, Glyph::Bar] {
        let cells = parse_text_cells(&glyph.sign().to_string()).unwrap();
        assert_eq!(cells, vec![vec![TextCell::Ramp(glyph)]]);
    }
}
