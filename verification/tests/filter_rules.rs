use flash_watcher::filter::{contains_builtin_marker, is_ignored, matches_any};
use flash_watcher::{
    compile_patterns, format_display_path, should_process_path, should_skip_dir, InvalidPattern,
};
use glob::Pattern;
use std::path::Path;

fn patterns(list: &[&str]) -> Vec<Pattern> {
    list.iter().map(|p| Pattern::new(p).unwrap()).collect()
}

#[test]
fn ignored_directory_rejects_nested_file() {
    let ignore = patterns(&["**/node_modules/**"]);
    let path = Path::new("project/node_modules/pkg/index.js");
    assert!(!should_process_path(path, &None, &[], &ignore));
    assert!(!should_process_path(path, &Some("js".to_string()), &[], &ignore));
    assert!(!should_process_path(path, &None, &patterns(&["**/*.js"]), &ignore));
    assert!(!should_process_path(
        path,
        &Some("js".to_string()),
        &patterns(&["**/*.js", "project/**"]),
        &ignore
    ));
}

#[test]
fn ignore_pattern_on_an_ancestor_rejects() {
    let ignore = patterns(&["project/build"]);
    assert!(!ignore[0].matches_path(Path::new("project/build/out/app.js")));
    assert!(!should_process_path(Path::new("project/build/out/app.js"), &None, &[], &ignore));
    assert!(!should_process_path(Path::new("project/build"), &None, &[], &ignore));
    assert!(should_process_path(Path::new("project/src/app.js"), &None, &[], &ignore));
    assert!(should_process_path(Path::new("project/builds/app.js"), &None, &[], &ignore));
}

#[test]
fn is_ignored_looks_at_every_ancestor() {
    let ignore = patterns(&["a", "x/y"]);
    assert!(is_ignored(Path::new("a/b/c/d.txt"), &ignore));
    assert!(is_ignored(Path::new("x/y/z"), &ignore));
    assert!(is_ignored(Path::new("a"), &ignore));
    assert!(!is_ignored(Path::new("b/a/c"), &ignore));
    assert!(!is_ignored(Path::new("x/z/y"), &ignore));
    assert!(!is_ignored(Path::new("a/b"), &[]));
}

#[test]
fn matches_any_needs_one_match() {
    let list = patterns(&["*.rs", "src/**"]);
    assert!(matches_any(&list, Path::new("main.rs")));
    assert!(matches_any(&list, Path::new("src/app.js")));
    assert!(!matches_any(&list, Path::new("docs/readme.md")));
    assert!(!matches_any(&[], Path::new("main.rs")));
}

#[test]
fn extension_filter_with_spaces() {
    let filter = Some("js, ts".to_string());
    assert!(should_process_path(Path::new("app.ts"), &filter, &[], &[]));
    assert!(should_process_path(Path::new("app.js"), &filter, &[], &[]));
    assert!(!should_process_path(Path::new("app.py"), &filter, &[], &[]));
    assert!(!should_process_path(Path::new("Makefile"), &filter, &[], &[]));
}

#[test]
fn extension_filter_is_exact() {
    let filter = Some("js,ts".to_string());
    assert!(!should_process_path(Path::new("app.JS"), &filter, &[], &[]));
    assert!(!should_process_path(Path::new("app.jsx"), &filter, &[], &[]));
    assert!(!should_process_path(Path::new("app.j"), &filter, &[], &[]));
    assert!(!should_process_path(Path::new(".js"), &filter, &[], &[]));
    assert!(should_process_path(Path::new("archive.tar.js"), &filter, &[], &[]));
    assert!(should_process_path(Path::new("dir.d/app.ts"), &filter, &[], &[]));
}

#[test]
fn include_patterns_must_match_the_path_itself() {
    let wanted = patterns(&["src"]);
    assert!(should_process_path(Path::new("src"), &None, &wanted, &[]));
    assert!(!should_process_path(Path::new("src/app.js"), &None, &wanted, &[]));
}

#[test]
fn include_and_extension_must_both_hold() {
    let wanted = patterns(&["src/**/*"]);
    let filter = Some("rs".to_string());
    assert!(should_process_path(Path::new("src/main.rs"), &filter, &wanted, &[]));
    assert!(!should_process_path(Path::new("src/main.js"), &filter, &wanted, &[]));
    assert!(!should_process_path(Path::new("lib/main.rs"), &filter, &wanted, &[]));
}

#[test]
fn builtin_markers_are_found_anywhere_in_the_text() {
    for marker in [".git", "node_modules", "target", ".svn", ".hg"] {
        assert!(contains_builtin_marker(Path::new(marker)));
        assert!(contains_builtin_marker(&Path::new("a").join(marker).join("b")));
        assert!(should_skip_dir(Path::new(marker), &[]));
    }
    assert!(contains_builtin_marker(Path::new("retargeted")));
    assert!(!contains_builtin_marker(Path::new("src/main")));
    assert!(!contains_builtin_marker(Path::new("git")));
}

#[test]
fn user_patterns_skip_directories() {
    let user = vec!["[broken".to_string(), "dist".to_string(), "out/*".to_string()];
    assert!(should_skip_dir(Path::new("dist"), &user));
    assert!(should_skip_dir(Path::new("out/web"), &user));
    assert!(!should_skip_dir(Path::new("src/dist"), &user));
    assert!(!should_skip_dir(Path::new("[broken"), &user));
}

#[test]
fn compile_patterns_keeps_order_and_text() {
    let list = vec!["*.js".to_string(), "src/**/*.rs".to_string(), "a?c".to_string()];
    let compiled = compile_patterns(&list).unwrap();
    assert_eq!(compiled.len(), 3);
    for (pattern, text) in compiled.iter().zip(list.iter()) {
        assert_eq!(pattern.as_str(), text);
    }
    assert!(compiled[2].matches("abc"));
    assert!(!compiled[2].matches("abbc"));
}

#[test]
fn compile_patterns_reports_first_invalid() {
    let list = vec![
        "*.js".to_string(),
        "a**b".to_string(),
        "[open".to_string(),
    ];
    let error = compile_patterns(&list).unwrap_err();
    assert_eq!(error, InvalidPattern { index: 1, pattern: "a**b".to_string() });
    assert_eq!(error.to_string(), "Invalid pattern: a**b");

    let triple = compile_patterns(&["***".to_string()]).unwrap_err();
    assert_eq!(triple.index, 0);
    assert_eq!(triple.pattern, "***");
}

#[test]
fn display_path_falls_back_to_whole_path() {
    assert_eq!(format_display_path(Path::new("a/b/c.txt")), "c.txt");
    assert_eq!(format_display_path(Path::new("a/b/")), "b");
    assert_eq!(format_display_path(Path::new("/")), "/");
    assert_eq!(format_display_path(Path::new("a/..")), "a/..");
    assert_eq!(format_display_path(Path::new("")), "");
}
