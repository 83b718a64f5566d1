use cell_motion::diagram::{CellTable, DiagramError, MoveType};

#[test]
fn parse_is_deterministic() {
    let text = "\u{2192}\u{2192}\u{2192}\n\u{2191}0\u{2193}\n\u{2190}\u{2190}\u{2190}";
    let t1 = CellTable::new(text).unwrap();
    let t2 = CellTable::new(text).unwrap();
    assert_eq!(t1.width, t2.width);
    assert_eq!(t1.height, t2.height);
    assert_eq!(t1.table, t2.table);
}

#[test]
fn width_is_longest_trimmed_line_and_height_is_line_count() {
    // Trimmed line lengths 5, 3, 7 give width 7 and height 3.
    let text = "\u{2192}\u{2192}\u{2192}\u{2192}\u{2192}\n  \u{2191}\u{2191}\u{2191}\n\u{2190}\u{2190}\u{2190}\u{2190}\u{2190}\u{2190}\u{2190}   ";
    let t = CellTable::new(text).unwrap();
    assert_eq!(t.width, 7);
    assert_eq!(t.height, 3);
}

#[test]
fn lines_are_trimmed_before_width_computation() {
    let text = "   \u{2192}\u{2192}   \n \u{2191} ";
    let t = CellTable::new(text).unwrap();
    assert_eq!(t.width, 2);
    assert_eq!(t.height, 2);
    assert_eq!(t.get(0, 0), '\u{2192}');
    assert_eq!(t.get(0, 1), '\u{2191}');
}

#[test]
fn out_of_range_lookup_is_blank() {
    let t = CellTable::new("\u{2192}\u{2192}\n\u{2191}").unwrap();
    assert_eq!(t.width, 2);
    assert_eq!(t.height, 2);
    // Beyond the grid on either axis.
    assert_eq!(t.get(5, 0), ' ');
    assert_eq!(t.get(0, 9), ' ');
    assert_eq!(t.move_type_at(5, 0), MoveType::Blank);
    assert_eq!(t.move_type_at(0, 9), MoveType::Blank);
    // Past the end of a short row, still inside the grid.
    assert_eq!(t.get(1, 1), ' ');
    assert_eq!(t.move_type_at(1, 1), MoveType::Blank);
}

#[test]
fn malformed_character_is_rejected() {
    assert_eq!(
        CellTable::new("\u{2192}x\u{2192}").err(),
        Some(DiagramError::MalformedCharacter)
    );
}

#[test]
fn empty_diagram_is_rejected() {
    assert_eq!(CellTable::new("").err(), Some(DiagramError::DegenerateGeometry));
}

#[test]
fn whitespace_only_diagram_is_rejected() {
    assert_eq!(
        CellTable::new("   \n\t \n  ").err(),
        Some(DiagramError::DegenerateGeometry)
    );
}

#[test]
fn directive_table_is_fixed() {
    let t = CellTable::new(" 0\u{2190}\u{2513}\u{2518}\u{2192}\u{250c}\u{2517}\u{2191}\u{251b}\u{2514}\u{2193}\u{2510}\u{250f}").unwrap();
    assert_eq!(t.height, 1);
    // The leading blank is trimmed away, so the row starts at '0'.
    assert_eq!(t.width, 13);
    let expect = [
        MoveType::Center,
        MoveType::Left,
        MoveType::BottomToLeft,
        MoveType::TopToLeft,
        MoveType::Right,
        MoveType::BottomToRight,
        MoveType::TopToRight,
        MoveType::Up,
        MoveType::LeftToTop,
        MoveType::RightToTop,
        MoveType::Down,
        MoveType::LeftToBottom,
        MoveType::RightToBottom,
    ];
    for (x, e) in expect.iter().enumerate() {
        assert_eq!(t.move_type_at(x, 0), *e);
    }
}

#[test]
fn sample_circuit_diagram_parses() {
    let text = "\
       \u{250c}\u{2192}\u{2192}\u{2192}\u{2192}\u{2192}\u{2192}\u{2192}\u{2192}\u{2192}\u{2510}
       \u{2191} \u{250c}\u{2192}\u{2192}\u{2192}\u{2192}\u{2192}\u{2510} \u{2193}
       \u{2191} \u{2191}0   0\u{2193} \u{2193}
       \u{2191} \u{2514}\u{2190}\u{2190}\u{2190}\u{2190}\u{2190}\u{2518} \u{2193}
       \u{2191} \u{250f}\u{2190}\u{2513} \u{250c}\u{2192}\u{2510} \u{2193}
       \u{2191} \u{2193}0\u{2191} \u{2191}0\u{2193} \u{2193}
       \u{2191} \u{2517}\u{2192}\u{251b} \u{2514}\u{2190}\u{2518} \u{2193}
       \u{2191} \u{250f}\u{2190}\u{2190}\u{2190}\u{2190}\u{2190}\u{2513} \u{2193}
       \u{2191} \u{2193}0   0\u{2191} \u{2193}
       \u{2191} \u{2517}\u{2192}\u{2192}\u{2192}\u{2192}\u{2192}\u{251b} \u{2193}
       \u{2514}\u{2190}\u{2190}\u{2190}\u{2190}\u{2190}\u{2190}\u{2190}\u{2190}\u{2190}\u{2518}";
    let t = CellTable::new(text).unwrap();
    assert_eq!(t.width, 11);
    assert_eq!(t.height, 11);
    assert_eq!(t.move_type_at(0, 0), MoveType::BottomToRight);
    assert_eq!(t.move_type_at(10, 0), MoveType::LeftToBottom);
    assert_eq!(t.move_type_at(0, 10), MoveType::RightToTop);
    assert_eq!(t.move_type_at(3, 2), MoveType::Center);
    assert_eq!(t.move_type_at(1, 1), MoveType::Blank);
}

#[test]
fn no_marker_before_rejection() {
    // A malformed diagram is refused as a whole: there is no table, and so
    // nothing to create markers from.
    let r = CellTable::new("0z");
    assert!(matches!(r, Err(DiagramError::MalformedCharacter)));
}
