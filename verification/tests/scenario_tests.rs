use file_renamer::driver::plan_rename;
use file_renamer::filters::RenameFilter;
use file_renamer::help::{get_help_string, get_version};
use file_renamer::renamer::Renamer;

#[test]
fn test_prefix_rename_scenario() {
    let mut filter = RenameFilter::new("file_*.txt".to_string(), '*');
    let renamer = Renamer::new("prefix_*.txt".to_string(), '*', ('(', ')'));
    let planned = plan_rename(&mut filter, &renamer, "file_1.txt").unwrap().unwrap();
    assert_eq!(planned, "prefix_1.txt");
    assert!(plan_rename(&mut filter, &renamer, "other.txt").is_none());
}

#[test]
fn test_date_reorder_scenario() {
    let mut filter = RenameFilter::new("photo-*-*-*.png".to_string(), '*');
    let renamer = Renamer::new("photo-(2)-(0)-(1)-png".to_string(), '*', ('(', ')'));
    let planned = plan_rename(&mut filter, &renamer, "photo-01-02-2021.png").unwrap().unwrap();
    assert_eq!(planned, "photo-2021-01-02-png");
    let planned = plan_rename(&mut filter, &renamer, "photo-03-04-2022.png").unwrap().unwrap();
    assert_eq!(planned, "photo-2022-03-04-png");
}

#[test]
fn test_counter_sequence_scenario() {
    let mut filter = RenameFilter::new("{1:1}.avi".to_string(), '*');
    let renamer = Renamer::new("video_clips*.avi".to_string(), '*', ('(', ')'));
    let planned = plan_rename(&mut filter, &renamer, "abc.avi").unwrap().unwrap();
    assert_eq!(planned, "video_clips1.avi");
    let planned = plan_rename(&mut filter, &renamer, "def.avi").unwrap().unwrap();
    assert_eq!(planned, "video_clips2.avi");
}

#[test]
fn test_custom_wildcard_char_scenario() {
    let mut filter = RenameFilter::new("photo_file-$-$-$-.png".to_string(), '$');
    let renamer = Renamer::new("photo_file$$$.png".to_string(), '$', ('(', ')'));
    let planned = plan_rename(&mut filter, &renamer, "photo_file-1-2-3-.png").unwrap().unwrap();
    assert_eq!(planned, "photo_file123.png");
}

#[test]
fn test_counter_with_spaces_scenario() {
    let mut filter = RenameFilter::new("a{ 10 : 5 }b".to_string(), '*');
    let renamer = Renamer::new("x*y".to_string(), '*', ('(', ')'));
    let planned = plan_rename(&mut filter, &renamer, "axxxb").unwrap().unwrap();
    assert_eq!(planned, "x10y");
    let planned = plan_rename(&mut filter, &renamer, "ayyb").unwrap().unwrap();
    assert_eq!(planned, "x15y");
}

#[test]
fn test_bracket_literal_scenario() {
    let filter = RenameFilter::new("prefix_[0]".to_string(), '*');
    assert!(filter.does_fulfill("prefix_[0]"), "The bracket form is literal text in a filter.");
    assert!(!filter.does_fulfill("prefix_0"));
    assert!(!filter.does_fulfill("prefix_[1]"));
}

#[test]
fn test_render_round_trip_scenario() {
    let template = "file_*_name_*";
    let mut filter = RenameFilter::new(template.to_string(), '*');
    let renamer = Renamer::new(template.to_string(), '*', ('(', ')'));
    for name in ["file_123_name_456", "file__name_", "file_a_name_file_b_name_c"] {
        assert!(filter.does_fulfill(name));
        let captures = filter.collect_wildcards(name);
        let rebuilt = renamer.generate_rename_filename(&name.to_string(), &captures).unwrap();
        assert_eq!(rebuilt, name, "A template equal to an all-text filter rebuilds the name.");
    }
}

#[test]
fn test_render_error_skips_only_that_file() {
    let mut filter = RenameFilter::new("*.log".to_string(), '*');
    let renamer = Renamer::new("(3).log".to_string(), '*', ('(', ')'));
    let planned = plan_rename(&mut filter, &renamer, "a.log").unwrap();
    assert!(planned.is_err(), "A position past the captures is a render error.");
    assert!(plan_rename(&mut filter, &renamer, "nope.txt").is_none());
}

#[test]
fn test_version_text() {
    assert_eq!(get_version(), "file-renamer v1.0.0");
}

#[test]
fn test_help_text_mentions_every_option() {
    let help = get_help_string();
    assert!(help.contains("file-renamer v1.0.0"));
    for option in [
        "--help",
        "--version",
        "--verbose",
        "--dry-run",
        "--recursive",
        "--directory",
        "--filter",
        "--new-name",
        "--wildcard-char",
        "--position-select-wrapper",
    ] {
        assert!(help.contains(option), "help text should mention {}", option);
    }
}
