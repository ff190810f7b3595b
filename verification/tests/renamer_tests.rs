use file_renamer::renamer::{RenderError, Renamer};

#[test]
fn test_renamer_new() {
    let renamer = Renamer::new("file_*_name_*".to_string(), '*', ('(', ')'));
    assert_eq!(
        renamer.StringRepresentation, "file_*_name_*",
        "StringRepresentation should be set correctly."
    );
    assert_eq!(renamer.WildcardChar, '*', "WildcardChar should be set to '*'.");
    assert_eq!(
        renamer.PositionSelectWrapper,
        ('(', ')'),
        "PositionSelectWrapper should be set to ('(', ')')."
    );
    assert_eq!(
        renamer.FixedStrings,
        vec!["file_", "_name_", ""],
        "FixedStrings should be the strings between wildcards."
    );
}

#[test]
fn test_fixed_strings_with_wildcard_char() {
    let renamer = Renamer::new("file_*_name_*".to_string(), '*', ('(', ')'));
    assert_eq!(
        renamer.get_fixed_strings(),
        vec!["file_", "_name_", ""],
        "FixedStrings should split correctly using the wildcard char."
    );
}

#[test]
fn test_fixed_strings_with_position_select_wrapper() {
    let renamer = Renamer::new("file_( 123 )_name_(456)".to_string(), '*', ('(', ')'));
    assert_eq!(
        renamer.get_fixed_strings(),
        vec!["file_", "_name_", ""],
        "FixedStrings should split correctly using the PositionSelectWrapper."
    );
}

#[test]
fn test_fixed_strings_with_different_wildcard_char() {
    let renamer = Renamer::new("file_?_name_?".to_string(), '?', ('(', ')'));
    assert_eq!(
        renamer.get_fixed_strings(),
        vec!["file_", "_name_", ""],
        "FixedStrings should split correctly using a different WildcardChar."
    );
}

#[test]
fn test_fixed_strings_with_different_position_select_wrapper() {
    let renamer = Renamer::new("file_[123]_name_[456]".to_string(), '*', ('[', ']'));
    assert_eq!(
        renamer.get_fixed_strings(),
        vec!["file_", "_name_", ""],
        "FixedStrings should split correctly using a different PositionSelectWrapper."
    );
}

#[test]
fn test_fixed_strings_with_incomplete_position_select_wrapper() {
    let renamer = Renamer::new("file_(123_name_456)".to_string(), '*', ('(', ')'));
    assert_eq!(
        renamer.get_fixed_strings(),
        vec!["file_(123_name_456)"],
        "FixedStrings should not split if the PositionSelectWrapper is incomplete."
    );
}

#[test]
fn test_fixed_strings_with_spaces_in_position_select_wrapper() {
    let renamer = Renamer::new("file_(  123  )_name_(  456  )".to_string(), '*', ('(', ')'));
    assert_eq!(
        renamer.get_fixed_strings(),
        vec!["file_", "_name_", ""],
        "FixedStrings should split correctly even with spaces in the PositionSelectWrapper."
    );
}

#[test]
fn test_generate_rename_filename_with_wildcard_char() {
    let renamer = Renamer::new("file_*_name_*".to_string(), '*', ('(', ')'));
    let wildcard_catched = vec!["123".to_string(), "456".to_string()];
    let result = renamer
        .generate_rename_filename(&"file_123_name_456".to_string(), &wildcard_catched)
        .unwrap();
    assert_eq!(
        result, "file_123_name_456",
        "Filename should be generated correctly using wildcard characters."
    );
}

#[test]
fn test_generate_rename_filename_with_position_select_wrapper() {
    let renamer = Renamer::new("file_(0)_name_(1)".to_string(), '*', ('(', ')'));
    let wildcard_catched = vec!["123".to_string(), "456".to_string()];
    let result = renamer
        .generate_rename_filename(&"file_123_name_456".to_string(), &wildcard_catched)
        .unwrap();
    assert_eq!(
        result, "file_123_name_456",
        "Filename should be generated correctly using position selectors."
    );
}

#[test]
fn test_generate_rename_filename_with_both_wildcard_and_position_selectors() {
    let renamer = Renamer::new("file_*_name_(1)_extra_(0)".to_string(), '*', ('(', ')'));
    let wildcard_catched = vec!["123".to_string(), "456".to_string()];
    let result = renamer
        .generate_rename_filename(&"file_123_name_456".to_string(), &wildcard_catched)
        .unwrap();
    assert_eq!(
        result, "file_123_name_456_extra_123",
        "Filename should be generated correctly using both wildcard characters and position selectors."
    );
}

#[test]
fn test_generate_rename_filename_with_position_out_of_bounds() {
    let renamer = Renamer::new("file_(2)_name".to_string(), '*', ('(', ')'));
    let wildcard_catched = vec!["123".to_string(), "456".to_string()];
    let result =
        renamer.generate_rename_filename(&"file_123_name_456".to_string(), &wildcard_catched);
    assert!(result.is_err(), "Using a position selector out of bounds should throw an error.");
}

#[test]
fn test_generate_rename_filename_with_empty_captured_strings() {
    let renamer = Renamer::new("file_(0)_name".to_string(), '*', ('(', ')'));
    let wildcard_catched: Vec<String> = vec![];
    let result =
        renamer.generate_rename_filename(&"file_123_name_456".to_string(), &wildcard_catched);
    assert!(
        result.is_err(),
        "Using a position selector when no strings are captured should throw an error."
    );
}

#[test]
fn test_generate_rename_filename_with_wildcard_at_beginning() {
    let renamer = Renamer::new("*_file_name".to_string(), '*', ('(', ')'));
    let wildcard_catched = vec!["123".to_string()];
    let result = renamer
        .generate_rename_filename(&"123_file_name".to_string(), &wildcard_catched)
        .unwrap();
    assert_eq!(
        result, "123_file_name",
        "Filename should be generated correctly with a wildcard replacement at the beginning."
    );
}

#[test]
fn test_explicit_positions_reorder_captures() {
    let renamer = Renamer::new("(1)_(0)".to_string(), '*', ('(', ')'));
    let captures = vec!["A".to_string(), "B".to_string()];
    let result = renamer.generate_rename_filename(&"".to_string(), &captures).unwrap();
    assert_eq!(result, "B_A");
}

#[test]
fn test_out_of_range_position_is_a_render_error() {
    let renamer = Renamer::new("(5)".to_string(), '*', ('(', ')'));
    let captures = vec!["A".to_string()];
    let result = renamer.generate_rename_filename(&"".to_string(), &captures);
    assert_eq!(result, Err(RenderError::MissingCapture));
}

#[test]
fn test_sequential_slots_skip_no_explicit_positions() {
    let renamer = Renamer::new("*-(0)-*".to_string(), '*', ('(', ')'));
    let captures = vec!["a".to_string(), "b".to_string()];
    let result = renamer.generate_rename_filename(&"".to_string(), &captures).unwrap();
    assert_eq!(
        result, "a-a-b",
        "Explicit slots do not advance the sequential counter."
    );
}
