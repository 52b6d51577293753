use brainfuck_rs_vibe::{BrainfuckError, BrainfuckInterpreter};

fn unmatched_position(source: &str) -> usize {
    match BrainfuckInterpreter::new(source.to_string(), false) {
        Err(BrainfuckError::UnmatchedBracket(position)) => position,
        _ => panic!("expected an unmatched bracket"),
    }
}

#[test]
fn jump_table_pairs_every_marker_with_its_partner() {
    let table = BrainfuckInterpreter::build_bracket_map(b"[[]+][]").unwrap();
    assert_eq!(table.len(), 6);
    assert_eq!(table[&0], 4);
    assert_eq!(table[&4], 0);
    assert_eq!(table[&1], 2);
    assert_eq!(table[&2], 1);
    assert_eq!(table[&5], 6);
    assert_eq!(table[&6], 5);
    assert!(!table.contains_key(&3));
}

#[test]
fn jumping_twice_comes_back() {
    let source = "+[>[-]<[->+<]]>[[[]]]..[]";
    let table = BrainfuckInterpreter::build_bracket_map(source.as_bytes()).unwrap();
    for (position, byte) in source.bytes().enumerate() {
        if byte == b'[' || byte == b']' {
            let other = table[&position];
            assert_ne!(other, position);
            assert_eq!(table[&other], position);
            assert_eq!(byte == b'[', other > position);
        } else {
            assert!(!table.contains_key(&position));
        }
    }
}

#[test]
fn jump_target_agrees_with_the_table() {
    let interpreter = BrainfuckInterpreter::new("[[]+][]".to_string(), false).unwrap();
    assert_eq!(interpreter.jump_target(0), Some(4));
    assert_eq!(interpreter.jump_target(1), Some(2));
    assert_eq!(interpreter.jump_target(2), Some(1));
    assert_eq!(interpreter.jump_target(3), None);
    assert_eq!(interpreter.jump_target(4), Some(0));
    assert_eq!(interpreter.jump_target(5), Some(6));
    assert_eq!(interpreter.jump_target(6), Some(5));
    assert_eq!(interpreter.jump_target(7), None);
    assert_eq!(interpreter.bracket_pairs(), 3);
}

#[test]
fn program_without_markers_has_an_empty_table() {
    let table = BrainfuckInterpreter::build_bracket_map(b"+-><.,x").unwrap();
    assert!(table.is_empty());
    let table = BrainfuckInterpreter::build_bracket_map(b"").unwrap();
    assert!(table.is_empty());
}

#[test]
fn unmatched_opener_is_reported_at_its_position() {
    assert_eq!(unmatched_position("[++"), 0);
    assert_eq!(unmatched_position("++["), 2);
}

#[test]
fn unmatched_closer_is_reported_at_its_position() {
    assert_eq!(unmatched_position("++]"), 2);
    assert_eq!(unmatched_position("]"), 0);
    assert_eq!(unmatched_position("[]]"), 2);
    assert_eq!(unmatched_position("[]+]+]"), 3);
}

#[test]
fn outermost_dangling_opener_is_reported() {
    assert_eq!(unmatched_position("[["), 0);
    assert_eq!(unmatched_position("+[+[+[]"), 1);
    assert_eq!(unmatched_position("[][+[]"), 2);
    assert_eq!(unmatched_position("[[]"), 0);
}

#[test]
fn stray_closer_wins_over_a_later_dangling_opener() {
    assert_eq!(unmatched_position("]["), 0);
    assert_eq!(unmatched_position("[]][["), 2);
}

#[test]
fn build_bracket_map_reports_like_new() {
    let error = BrainfuckInterpreter::build_bracket_map(b"+[[-]").unwrap_err();
    assert!(matches!(error, BrainfuckError::UnmatchedBracket(1)));
    let error = BrainfuckInterpreter::build_bracket_map(b"+[-]]").unwrap_err();
    assert!(matches!(error, BrainfuckError::UnmatchedBracket(4)));
}
