use file_renamer::filters::{Counter, RenameFilter, WildcardKind};

#[test]
fn test_counter() {
    let mut counter = Counter::new(0, 1);
    assert_eq!(counter.count(), 0, "Initial value of the counter should be 0.");
    assert_eq!(counter.count(), 1, "Counter increments by 1.");
    assert_eq!(counter.count(), 2, "Counter increments by 1 again.");

    let mut counter = Counter::new(10, 5);
    assert_eq!(counter.count(), 10, "Initial value of the counter should be 10.");
    assert_eq!(counter.count(), 15, "Counter increments by 5.");
    assert_eq!(counter.count(), 20, "Counter increments by 5 again.");
}

#[test]
fn test_collect_wildcards_no_wildcards() {
    let mut filter = RenameFilter {
        string_representation: "file_name".to_string(),
        fixed_str: vec!["file_name".to_string()],
        ..Default::default()
    };
    let result = filter.collect_wildcards("file_name");
    assert!(result.is_empty(), "No wildcards, so the result should be empty.");
    assert!(filter.wildcard_type.is_empty(), "No wildcards, so the wildcard_type should be empty.");
}

#[test]
fn test_collect_wildcards_some_wildcards() {
    let mut filter = RenameFilter {
        string_representation: "file_*_name_*".to_string(),
        wildcard_type: vec![WildcardKind::Text, WildcardKind::Text],
        fixed_str: vec!["file_".to_string(), "_name_".to_string(), "".to_string()],
        ..Default::default()
    };
    let result = filter.collect_wildcards("file_123_name_456");
    assert_eq!(result, vec!["123", "456"], "Wildcards should match '123' and '456'.");
}

#[test]
fn test_collect_wildcards_one_counter() {
    let mut filter = RenameFilter {
        string_representation: "file_{1:1}_name".to_string(),
        counters: vec![Counter::new(1, 1)],
        wildcard_type: vec![WildcardKind::Counter],
        fixed_str: vec!["file_".to_string(), "_name".to_string()],
        ..Default::default()
    };
    let result1 = filter.collect_wildcards("file_123_name");
    assert_eq!(result1, vec!["1"], "First counter starts at 1.");
    let result2 = filter.collect_wildcards("file_456_name");
    assert_eq!(result2, vec!["2"], "Counter increments to 2.");
}

#[test]
fn test_collect_wildcards_two_counters() {
    let mut filter = RenameFilter {
        string_representation: "file_{ 1   : 1      }_name_{10:5}".to_string(),
        counters: vec![Counter::new(1, 1), Counter::new(10, 5)],
        wildcard_type: vec![WildcardKind::Counter, WildcardKind::Counter],
        fixed_str: vec!["file_".to_string(), "_name_".to_string(), "".to_string()],
        ..Default::default()
    };
    let result1 = filter.collect_wildcards("file_123_name_456");
    assert_eq!(result1, vec!["1", "10"], "First counter starts at 1, second at 10.");
    let result2 = filter.collect_wildcards("file_789_name_012");
    assert_eq!(result2, vec!["2", "15"], "First counter increments to 2, second to 15.");
}

#[test]
fn test_does_fulfill_no_fixed_str() {
    let filter = RenameFilter {
        string_representation: "file_name".to_string(),
        fixed_str: vec!["file_name".to_string()],
        ..Default::default()
    };
    assert!(filter.does_fulfill("file_name"), "Filename matches the fixed string.");
    assert!(!filter.does_fulfill("file_name_extra"), "Filename does not match exactly.");
}

#[test]
fn test_does_fulfill_with_fixed_str() {
    let filter = RenameFilter {
        string_representation: "file_*_name".to_string(),
        fixed_str: vec!["file_".to_string(), "_name".to_string()],
        wildcard_type: vec![WildcardKind::Text],
        ..Default::default()
    };
    assert!(
        filter.does_fulfill("file_123_name"),
        "Matches the fixed strings with wildcard in between."
    );
    assert!(filter.does_fulfill("file__name"), "Matches even with an empty wildcard.");
    assert!(!filter.does_fulfill("file_name_extra"), "Does not match due to extra characters.");
    assert!(!filter.does_fulfill("name_file"), "Does not match due to incorrect order.");
}

#[test]
fn test_does_fulfill_partial_match() {
    let filter = RenameFilter {
        string_representation: "file_*_name_*".to_string(),
        fixed_str: vec!["file_".to_string(), "_name_".to_string(), "".to_string()],
        wildcard_type: vec![WildcardKind::Text, WildcardKind::Text],
        ..Default::default()
    };
    assert!(
        filter.does_fulfill("file_123_name_456"),
        "Matches the fixed strings with wildcards in between."
    );
    assert!(
        !filter.does_fulfill("file_123_name"),
        "Does not match due to missing second wildcard."
    );
    assert!(
        !filter.does_fulfill("file_name_456_extra"),
        "Does not match due to extra characters."
    );
}

#[test]
fn test_rename_filter_new_with_string_wildcards() {
    let filter = RenameFilter::new("file_*_name_*".to_string(), '*');
    assert_eq!(
        filter.fixed_str,
        vec!["file_", "_name_", ""],
        "Fixed_str should include an empty string at the end for the last wildcard."
    );
    assert_eq!(filter.wildcard_type.len(), 2, "Two wildcards should be detected.");
    assert!(matches!(filter.wildcard_type[0], WildcardKind::Text), "First wildcard is a string.");
    assert!(matches!(filter.wildcard_type[1], WildcardKind::Text), "Second wildcard is a string.");
    assert!(filter.counters.is_empty(), "No counters should be present.");
}

#[test]
fn test_rename_filter_new_with_counters_no_spaces() {
    let filter = RenameFilter::new("file_{1:1}_name_{10:5}".to_string(), '*');
    assert_eq!(
        filter.fixed_str,
        vec!["file_", "_name_", ""],
        "Fixed_str should include an empty string at the end for the last wildcard."
    );
    assert_eq!(filter.wildcard_type.len(), 2, "Two wildcards should be detected.");
    assert!(
        matches!(filter.wildcard_type[0], WildcardKind::Counter),
        "First wildcard is a counter."
    );
    assert!(
        matches!(filter.wildcard_type[1], WildcardKind::Counter),
        "Second wildcard is a counter."
    );
    assert_eq!(filter.counters.len(), 2, "Two counters should be present.");
    assert_eq!(filter.counters[0].counter, 1, "First counter starts at 1.");
    assert_eq!(filter.counters[0].increment, 1, "First counter increments by 1.");
    assert_eq!(filter.counters[1].counter, 10, "Second counter starts at 10.");
    assert_eq!(filter.counters[1].increment, 5, "Second counter increments by 5.");
}

#[test]
fn test_rename_filter_new_with_counters_with_spaces() {
    let filter = RenameFilter::new("file_{  1  :  1  }_name_{  10  :  5  }".to_string(), '*');
    assert_eq!(
        filter.fixed_str,
        vec!["file_", "_name_", ""],
        "Fixed_str should include an empty string at the end for the last wildcard."
    );
    assert_eq!(filter.wildcard_type.len(), 2, "Two wildcards should be detected.");
    assert!(
        matches!(filter.wildcard_type[0], WildcardKind::Counter),
        "First wildcard is a counter."
    );
    assert!(
        matches!(filter.wildcard_type[1], WildcardKind::Counter),
        "Second wildcard is a counter."
    );
    assert_eq!(filter.counters.len(), 2, "Two counters should be present.");
    assert_eq!(filter.counters[0].counter, 1, "First counter starts at 1.");
    assert_eq!(filter.counters[0].increment, 1, "First counter increments by 1.");
    assert_eq!(filter.counters[1].counter, 10, "Second counter starts at 10.");
    assert_eq!(filter.counters[1].increment, 5, "Second counter increments by 5.");
}

#[test]
fn test_literal_count_is_wildcards_plus_one() {
    let filter = RenameFilter::new("a*b{1:2}c".to_string(), '*');
    assert_eq!(filter.wildcard_type.len(), 2);
    assert_eq!(filter.fixed_str.len(), 3, "One more literal than wildcards.");
    assert_eq!(filter.fixed_str, vec!["a", "b", "c"]);
    assert_eq!(filter.counters.len(), 1, "One counter per counter wildcard.");

    let empty = RenameFilter::new("".to_string(), '*');
    assert_eq!(empty.wildcard_type.len(), 0);
    assert_eq!(empty.fixed_str, vec![""], "No wildcard still leaves one (empty) literal.");
}

#[test]
fn test_literal_only_filter_matches_exact_name_only() {
    let filter = RenameFilter::new("notes.txt".to_string(), '*');
    assert!(filter.does_fulfill("notes.txt"));
    assert!(!filter.does_fulfill("notes.txt2"));
    assert!(!filter.does_fulfill("xnotes.txt"));
    assert!(!filter.does_fulfill(""));
}

#[test]
fn test_single_wildcard_prefix_suffix() {
    let mut filter = RenameFilter::new("A*B".to_string(), '*');
    assert!(filter.does_fulfill("AB"), "The wildcard may capture nothing at all.");
    assert!(filter.does_fulfill("AxyzB"));
    assert!(filter.does_fulfill("ABxB"), "Anything between the prefix and the suffix is fine.");
    assert!(!filter.does_fulfill("A"), "Too short to hold both anchors.");
    assert!(!filter.does_fulfill("AxyzC"));
    assert!(!filter.does_fulfill("xAyB_"));
    assert_eq!(filter.collect_wildcards("AxyzB"), vec!["xyz"]);
    assert_eq!(filter.collect_wildcards("ABxB"), vec!["Bx"], "Captures up to the final suffix.");
}

#[test]
fn test_malformed_counter_stays_literal() {
    let mut filter = RenameFilter::new("x{abc}y".to_string(), '*');
    assert_eq!(filter.fixed_str, vec!["x{abc}y"], "A malformed counter form is literal text.");
    assert!(filter.wildcard_type.is_empty());
    assert!(filter.counters.is_empty());
    assert!(filter.does_fulfill("x{abc}y"));
    assert!(filter.collect_wildcards("x{abc}y").is_empty());
}

#[test]
fn test_unclosed_counter_stays_literal() {
    let filter = RenameFilter::new("a{12:3".to_string(), '*');
    assert_eq!(filter.fixed_str, vec!["a{12:3"], "An unclosed counter form is literal text.");
    assert!(filter.counters.is_empty());
}

#[test]
fn test_counter_values_do_not_depend_on_filenames() {
    let mut filter = RenameFilter::new("{3:4}".to_string(), '*');
    let first = filter.collect_wildcards("anything");
    let second = filter.collect_wildcards("else");
    assert_eq!(first, vec!["3"]);
    assert_eq!(second, vec!["7"], "The counter token ignores the filename.");
    let third = filter.collect_wildcards("x");
    assert_eq!(third, vec!["11"], "And keeps advancing by its increment.");
}

#[test]
fn test_rejected_name_leaves_counters_alone() {
    let mut filter = RenameFilter::new("img_{5:5}.png".to_string(), '*');
    assert!(filter.collect_wildcards("not_a_match").is_empty());
    assert_eq!(filter.counters[0].counter, 5, "A rejected name advances nothing.");
    assert_eq!(filter.collect_wildcards("img_a.png"), vec!["5"]);
    assert_eq!(filter.counters[0].counter, 10);
}

#[test]
fn test_counter_rendering_of_negative_values() {
    let mut counter = Counter::new(-7, 3);
    assert_eq!(counter.count(), -7);
    assert_eq!(counter.count(), -4);
    assert_eq!(file_renamer::text::i32_dec(-120), "-120");
    assert_eq!(file_renamer::text::i32_dec(0), "0");
    assert_eq!(file_renamer::text::i32_dec(2147483647), "2147483647");
    assert_eq!(file_renamer::text::i32_dec(-2147483648), "-2147483648");
}
