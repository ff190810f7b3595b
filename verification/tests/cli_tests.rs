use file_renamer::cli::{CliParameters, UsageError};

#[test]
fn test_help_parameter() {
    let args = vec!["program".to_string(), "--help".to_string()];
    let params = CliParameters::new(args).unwrap();
    assert!(params.Help, "Help flag should be set to true.");
}

#[test]
fn test_version_parameter() {
    let args = vec!["program".to_string(), "--version".to_string()];
    let params = CliParameters::new(args).unwrap();
    assert!(params.Version, "Version flag should be set to true.");
}

#[test]
fn test_dry_run_parameter() {
    let args = vec!["program".to_string(), "--dry-run".to_string()];
    let params = CliParameters::new(args).unwrap();
    assert!(params.DryRun, "DryRun flag should be set to true.");
}

#[test]
fn test_recursive_parameter() {
    let args = vec!["program".to_string(), "--recursive".to_string()];
    let params = CliParameters::new(args).unwrap();
    assert!(params.Recursive, "Recursive flag should be set to true.");
}

#[test]
fn test_filter_parameter() {
    let args = vec!["program".to_string(), "--filter".to_string(), "file_*".to_string()];
    let params = CliParameters::new(args).unwrap();
    assert_eq!(params.Filter, "file_*", "Filter should be set to 'file_*'.");
}

#[test]
fn test_output_parameter() {
    let args = vec!["program".to_string(), "--output".to_string(), "output_file".to_string()];
    let params = CliParameters::new(args).unwrap();
    assert_eq!(params.Output, "output_file", "Output should be set to 'output_file'.");
}

#[test]
fn test_wildcard_char_parameter() {
    let args = vec!["program".to_string(), "--wildcard-char".to_string(), "?".to_string()];
    let params = CliParameters::new(args).unwrap();
    assert_eq!(params.WildcardChar, '?', "WildcardChar should be set to '?'.");
}

#[test]
fn test_position_select_wrapper_parameter() {
    let args =
        vec!["program".to_string(), "--position-select-wrapper".to_string(), "[]".to_string()];
    let params = CliParameters::new(args).unwrap();
    assert_eq!(
        params.PositionSelectWrapper,
        ('[', ']'),
        "PositionSelectWrapper should be set to ('[', ']')."
    );
}

#[test]
fn test_multiple_parameters() {
    let args = vec![
        "program".to_string(),
        "--help".to_string(),
        "--directory".to_string(),
        "some/dir".to_string(),
        "--filter".to_string(),
        "file_*".to_string(),
    ];
    let params = CliParameters::new(args).unwrap();
    assert!(params.Help, "Help flag should be set to true.");
    assert_eq!(params.Directory, "some/dir", "Directory should be set to the given path.");
    assert_eq!(params.Filter, "file_*", "Filter should be set to 'file_*'.");
}

#[test]
fn test_parameters_in_different_order() {
    let args = vec![
        "program".to_string(),
        "--filter".to_string(),
        "file_*".to_string(),
        "--directory".to_string(),
        "some/dir".to_string(),
        "--help".to_string(),
    ];
    let params = CliParameters::new(args).unwrap();
    assert!(params.Help, "Help flag should be set to true.");
    assert_eq!(params.Directory, "some/dir", "Directory should be set to the given path.");
    assert_eq!(params.Filter, "file_*", "Filter should be set to 'file_*'.");
}

#[test]
fn test_duplicate_parameter_error() {
    let args = vec!["program".to_string(), "--help".to_string(), "--help".to_string()];
    let result = CliParameters::new(args);
    assert_eq!(
        result.err(),
        Some(UsageError::DuplicateParameter),
        "Duplicate parameters should cause an error."
    );
}

#[test]
fn test_invalid_position_select_wrapper() {
    let args =
        vec!["program".to_string(), "--position-select-wrapper".to_string(), "abc".to_string()];
    let result = CliParameters::new(args);
    assert_eq!(
        result.err(),
        Some(UsageError::InvalidPositionSelectWrapper),
        "Invalid PositionSelectWrapper should cause an error."
    );
}

#[test]
fn test_invalid_wildcard_char() {
    let args = vec!["program".to_string(), "--wildcard-char".to_string(), "**".to_string()];
    let result = CliParameters::new(args);
    assert_eq!(
        result.err(),
        Some(UsageError::InvalidWildcardChar),
        "Invalid WildcardChar should cause an error."
    );
}

#[test]
fn test_unknown_parameter_error() {
    let args = vec!["program".to_string(), "--frobnicate".to_string()];
    let result = CliParameters::new(args);
    assert_eq!(result.err(), Some(UsageError::InvalidParameter));
}

#[test]
fn test_missing_value_error() {
    let args = vec!["program".to_string(), "--filter".to_string()];
    let result = CliParameters::new(args);
    assert_eq!(result.err(), Some(UsageError::MissingValue));
}

#[test]
fn test_defaults_without_arguments() {
    let args = vec!["program".to_string()];
    let params = CliParameters::new(args).unwrap();
    assert!(!params.Help);
    assert!(!params.Version);
    assert!(!params.Verbose);
    assert!(!params.DryRun);
    assert!(!params.Recursive);
    assert_eq!(params.Directory, "");
    assert_eq!(params.Filter, "");
    assert_eq!(params.Output, "");
    assert_eq!(params.WildcardChar, '*');
    assert_eq!(params.PositionSelectWrapper, ('(', ')'));
}

#[test]
fn test_dry_run_implies_verbose() {
    let args = vec!["program".to_string(), "--dry-run".to_string()];
    let params = CliParameters::new(args).unwrap();
    assert!(params.Verbose, "Dry-run mode implies verbose output.");
}
