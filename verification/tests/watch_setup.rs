use flash_watcher::{
    forwards, resolve_watch_spec, Dispatcher, EventKind, InvalidPattern, WatchSet, WatchTarget,
};
use glob::Pattern;
use std::path::Path;

#[test]
fn only_changes_to_files_are_forwarded() {
    assert!(forwards(EventKind::Create));
    assert!(forwards(EventKind::Modify));
    assert!(forwards(EventKind::Remove));
    assert!(!forwards(EventKind::Other));
}

#[test]
fn existing_directory_is_watched_as_it_is() {
    assert!(matches!(resolve_watch_spec("src", true), Ok(WatchTarget::Directory)));
    assert!(matches!(resolve_watch_spec("[not a glob", true), Ok(WatchTarget::Directory)));
}

#[test]
fn other_target_is_a_glob() {
    match resolve_watch_spec("src/**/*.js", false) {
        Ok(WatchTarget::Glob(pattern)) => {
            assert_eq!(pattern.as_str(), "src/**/*.js");
            assert!(pattern.matches_path(Path::new("src/a/b.js")));
        }
        other => panic!("unexpected {:?}", other),
    }
}

#[test]
fn malformed_glob_target_is_an_error() {
    match resolve_watch_spec("src/[oops", false) {
        Err(error) => {
            assert_eq!(error, InvalidPattern { index: 0, pattern: "src/[oops".to_string() });
        }
        other => panic!("unexpected {:?}", other),
    }
}

#[test]
fn directory_is_registered_once() {
    let mut set = WatchSet::new();
    assert!(set.is_empty());
    assert!(set.register(Path::new("src")));
    assert!(!set.register(Path::new("src")));
    assert!(set.register(Path::new("tests")));
    assert!(!set.register(Path::new("src")));
    assert_eq!(set.len(), 2);
    assert!(!set.is_empty());
}

#[test]
fn glob_match_needs_directory_and_match() {
    let pattern = Pattern::new("src/**").unwrap();
    let mut set = WatchSet::new();
    assert!(!set.register_match(&pattern, Path::new("src/app.js"), false));
    assert!(!set.register_match(&pattern, Path::new("docs/api"), true));
    assert_eq!(set.len(), 0);
    assert!(set.register_match(&pattern, Path::new("src/components"), true));
    assert!(!set.register_match(&pattern, Path::new("src/components"), true));
    assert_eq!(set.len(), 1);
    assert!(!set.register(Path::new("src/components")));
}

#[test]
fn dispatcher_debounces_accepted_paths() {
    let mut dispatcher = Dispatcher::new(None, vec![], vec![], 100);
    let path = Path::new("src/app.js");
    assert!(dispatcher.on_change(path, 0));
    assert!(!dispatcher.on_change(path, 10));
    assert!(dispatcher.on_change(path, 150));
    assert_eq!(dispatcher.registry.last_dispatch("src/app.js"), Some(150));
}

#[test]
fn dispatcher_leaves_rejected_paths_out_of_the_registry() {
    let ignore = vec![Pattern::new("**/node_modules/**").unwrap()];
    let mut dispatcher = Dispatcher::new(Some("js".to_string()), vec![], ignore, 100);
    assert!(!dispatcher.on_change(Path::new("project/node_modules/pkg/index.js"), 0));
    assert!(!dispatcher.on_change(Path::new("src/app.py"), 0));
    assert_eq!(dispatcher.registry.len(), 0);
    assert!(dispatcher.on_change(Path::new("src/app.js"), 0));
    assert_eq!(dispatcher.registry.len(), 1);
    assert_eq!(dispatcher.debounce, 100);
    assert_eq!(dispatcher.ext_filter, Some("js".to_string()));
}

#[test]
fn directory_is_known_by_its_path_not_its_spelling() {
    let mut set = WatchSet::new();
    assert!(set.register(Path::new("src")));
    assert!(!set.register(Path::new("src/")));
    assert!(set.register(Path::new("src/lib")));
    assert!(!set.register(Path::new("src//lib")));
    assert!(!set.register(Path::new("src/./lib/")));
    assert!(set.register(Path::new("./src")));
    assert!(set.register(Path::new("SRC")));
    assert_eq!(set.len(), 4);
    assert!(set.contains(Path::new("src/")));
    assert!(set.contains(Path::new("./src/")));
    assert!(!set.contains(Path::new("lib")));
}
