use flash_watcher::{format_display_path, validate_args, Args};
use std::path::Path;

#[test]
fn test_main_logic_validation() {
    // Test argument validation
    let mut args = Args::default();

    // Should fail with empty command
    let result = validate_args(&args);
    assert!(result.is_err());
    assert!(result
        .unwrap_err()
        .to_string()
        .contains("No command specified"));

    // Should succeed with command
    args.command = vec!["echo".to_string(), "test".to_string()];
    let result = validate_args(&args);
    assert!(result.is_ok());
}

#[test]
fn test_format_display_path_edge_cases() {
    // Test various path formats
    assert_eq!(format_display_path(Path::new("test.js")), "test.js");
    assert_eq!(format_display_path(Path::new("src/test.js")), "test.js");
    assert_eq!(
        format_display_path(Path::new("/full/path/to/file.rs")),
        "file.rs"
    );
    assert_eq!(format_display_path(Path::new(".")), ".");
    assert_eq!(format_display_path(Path::new("..")), "..");
    assert_eq!(format_display_path(Path::new("/")), "/");

    // Test with complex paths
    assert_eq!(
        format_display_path(Path::new("very/deep/nested/path/file.txt")),
        "file.txt"
    );
    assert_eq!(
        format_display_path(Path::new("./relative/path/file.js")),
        "file.js"
    );
    assert_eq!(
        format_display_path(Path::new("../parent/file.py")),
        "file.py"
    );

    // Test with special characters
    assert_eq!(
        format_display_path(Path::new("path/file with spaces.txt")),
        "file with spaces.txt"
    );
    assert_eq!(
        format_display_path(Path::new("path/file-with-dashes.js")),
        "file-with-dashes.js"
    );
    assert_eq!(
        format_display_path(Path::new("path/file_with_underscores.rs")),
        "file_with_underscores.rs"
    );
}
