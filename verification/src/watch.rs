//! The decisions of setting up a watch and of handling its events.
//!
//! The watch itself, the walk through the directories and the clock belong
//! to the caller. What is registered, and which change is acted on, is
//! decided here.

use crate::debounce::{after_event, dispatches, DebounceRegistry};
use crate::filter::{
    compile_pattern, filter_text, glob_valid, path_accepted, path_buf_as_path, path_buf_bytes,
    path_bytes, path_lossy_text, path_to_path_buf, path_to_string_lossy, paths_equal,
    pattern_accepts, pattern_matches_path, pattern_text, same_path, should_process_path,
    InvalidPattern,
};
use glob::Pattern;
use std::path::{Path, PathBuf};
use vstd::prelude::*;

verus! {

/// What a notification from the watch reports.
#[derive(Debug, Clone, Copy, PartialEq, Eq)]
pub enum EventKind {
    Create,
    Modify,
    Remove,
    /// Anything else, such as a file being read.
    Other,
}

/// Whether notifications of this kind are passed on: creations,
/// modifications and removals are, nothing else.
pub fn forwards(kind: EventKind) -> (b: bool)
    ensures
        b == !(kind is Other),
{
    match kind {
        EventKind::Create => true,
        EventKind::Modify => true,
        EventKind::Remove => true,
        EventKind::Other => false,
    }
}

/// How a configured watch target is taken.
#[derive(Debug)]
pub enum WatchTarget {
    /// An existing directory, watched as it is.
    Directory,
    /// A glob pattern; every directory it matches is watched.
    Glob(Pattern),
}

/// Takes a watch target as a directory where it is one, and as a glob
/// pattern otherwise. A target that is neither is an error.
pub fn resolve_watch_spec(spec: &str, is_directory: bool) -> (r: Result<WatchTarget, InvalidPattern>)
    ensures
        is_directory ==> r matches Ok(WatchTarget::Directory),
        !is_directory && glob_valid(spec@) ==> (r matches Ok(WatchTarget::Glob(p))
            && pattern_text(&p) == spec@),
        !is_directory && !glob_valid(spec@) ==> (r matches Err(e) && e.pattern@ == spec@ && e.index
            == 0),
{
    if is_directory {
        return Ok(WatchTarget::Directory);
    }
    match compile_pattern(spec) {
        Ok(pattern) => Ok(WatchTarget::Glob(pattern)),
        Err(_) => Err(InvalidPattern { index: 0, pattern: spec.to_string() }),
    }
}

/// Whether a set of paths, given by their bytes, holds one that equals the
/// path with these bytes.
pub open spec fn holds_path(set: Seq<Seq<u8>>, bytes: Seq<u8>) -> bool {
    exists|i: int| 0 <= i < set.len() && same_path(#[trigger] set[i], bytes)
}

/// Whether no path of the set equals one that stands after it.
pub open spec fn all_different(set: Seq<Seq<u8>>) -> bool {
    forall|i: int, j: int|
        0 <= i < j < set.len() ==> !same_path(#[trigger] set[i], #[trigger] set[j])
}

/// The directories registered with the watch, each once, in the order in
/// which they were registered. Its view gives each path by its bytes; two
/// directories are the same where their paths are equal.
pub struct WatchSet {
    paths: Vec<PathBuf>,
}

spec fn contents(paths: Seq<PathBuf>) -> Seq<Seq<u8>> {
    Seq::new(paths.len(), |i: int| path_buf_bytes(&paths[i]))
}

impl View for WatchSet {
    type V = Seq<Seq<u8>>;

    closed spec fn view(&self) -> Seq<Seq<u8>> {
        contents(self.paths@)
    }
}

impl WatchSet {
    #[verifier::type_invariant]
    spec fn well_formed(self) -> bool {
        all_different(contents(self.paths@))
    }

    /// A set with nothing registered.
    pub fn new() -> (set: WatchSet)
        ensures
            set@ == Seq::<Seq<u8>>::empty(),
    {
        let set = WatchSet { paths: Vec::new() };
        assert(set@ =~= Seq::<Seq<u8>>::empty());
        set
    }

    /// The number of directories registered. None of them stands twice.
    pub fn len(&self) -> (n: usize)
        ensures
            n == self@.len(),
            all_different(self@),
    {
        proof {
            use_type_invariant(self);
        }
        self.paths.len()
    }

    /// Whether nothing is registered, so that nothing is being watched.
    pub fn is_empty(&self) -> (b: bool)
        ensures
            b == (self@.len() == 0),
    {
        self.paths.len() == 0
    }

    /// Whether a directory with an equal path is registered.
    pub fn contains(&self, path: &Path) -> (b: bool)
        ensures
            b == holds_path(self@, path_bytes(path)),
    {
        let mut i: usize = 0;
        while i < self.paths.len()
            invariant
                0 <= i <= self.paths@.len(),
                forall|j: int| 0 <= j < i ==> !same_path(#[trigger] self@[j], path_bytes(path)),
            decreases self.paths@.len() - i,
        {
            if paths_equal(path_buf_as_path(&self.paths[i]), path) {
                assert(same_path(self@[i as int], path_bytes(path)));
                return true;
            }
            i += 1;
        }
        false
    }

    /// Registers a directory unless one with an equal path is registered
    /// already, and says whether it is new.
    pub fn register(&mut self, path: &Path) -> (added: bool)
        ensures
            added == !holds_path(old(self)@, path_bytes(path)),
            final(self)@ == (if added {
                old(self)@.push(path_bytes(path))
            } else {
                old(self)@
            }),
            all_different(final(self)@),
    {
        proof {
            use_type_invariant(&*self);
        }
        if self.contains(path) {
            return false;
        }
        let ghost before = self@;
        let owned = path_to_path_buf(path);
        let mut paths: Vec<PathBuf> = Vec::new();
        core::mem::swap(&mut self.paths, &mut paths);
        paths.push(owned);
        proof {
            let after = contents(paths@);
            assert(after =~= before.push(path_bytes(path)));
            assert forall|i: int, j: int| 0 <= i < j < after.len() implies !same_path(
                #[trigger] after[i],
                #[trigger] after[j],
            ) by {
                if j < before.len() {
                    assert(after[i] == before[i]);
                    assert(after[j] == before[j]);
                } else {
                    assert(after[i] == before[i]);
                }
            }
        }
        self.paths = paths;
        true
    }

    /// Registers a directory found while resolving a glob target: the entry
    /// must be a directory that the pattern matches and that is not
    /// registered yet. Says whether it was registered.
    pub fn register_match(&mut self, pattern: &Pattern, path: &Path, is_directory: bool) -> (added:
        bool)
        ensures
            added == (is_directory && pattern_accepts(pattern, path) && !holds_path(
                old(self)@,
                path_bytes(path),
            )),
            final(self)@ == (if added {
                old(self)@.push(path_bytes(path))
            } else {
                old(self)@
            }),
            all_different(final(self)@),
    {
        proof {
            use_type_invariant(&*self);
        }
        if is_directory && pattern_matches_path(pattern, path) {
            self.register(path)
        } else {
            false
        }
    }
}

/// The filters, the debounce window and the registry that together decide
/// which change is acted on.
pub struct Dispatcher {
    pub ext_filter: Option<String>,
    pub include_patterns: Vec<Pattern>,
    pub ignore_patterns: Vec<Pattern>,
    /// The debounce window, in milliseconds.
    pub debounce: u64,
    pub registry: DebounceRegistry,
}

impl Dispatcher {
    /// Whether the filters let a change to `path` through.
    pub open spec fn accepts(self, path: &Path) -> bool {
        path_accepted(
            path,
            filter_text(self.ext_filter),
            self.include_patterns@,
            self.ignore_patterns@,
        )
    }

    /// A dispatcher that has seen no change yet.
    pub fn new(
        ext_filter: Option<String>,
        include_patterns: Vec<Pattern>,
        ignore_patterns: Vec<Pattern>,
        debounce: u64,
    ) -> (dispatcher: Dispatcher)
        ensures
            dispatcher.ext_filter == ext_filter,
            dispatcher.include_patterns == include_patterns,
            dispatcher.ignore_patterns == ignore_patterns,
            dispatcher.debounce == debounce,
            dispatcher.registry@ == Map::<Seq<char>, u64>::empty(),
    {
        Dispatcher {
            ext_filter,
            include_patterns,
            ignore_patterns,
            debounce,
            registry: DebounceRegistry::new(),
        }
    }

    /// Decides whether a change to `path`, noticed at `now` milliseconds,
    /// sets off the command. It does when the filters let the path through
    /// and no dispatch for the same path was accepted within the debounce
    /// window. A change that the filters reject leaves the registry alone.
    pub fn on_change(&mut self, path: &Path, now: u64) -> (go: bool)
        ensures
            go == (old(self).accepts(path) && dispatches(
                old(self).registry@,
                path_lossy_text(path),
                now,
                old(self).debounce,
            )),
            final(self).registry@ == (if old(self).accepts(path) {
                after_event(old(self).registry@, path_lossy_text(path), now, old(self).debounce)
            } else {
                old(self).registry@
            }),
            final(self).ext_filter == old(self).ext_filter,
            final(self).include_patterns == old(self).include_patterns,
            final(self).ignore_patterns == old(self).ignore_patterns,
            final(self).debounce == old(self).debounce,
    {
        if !should_process_path(
            path,
            &self.ext_filter,
            self.include_patterns.as_slice(),
            self.ignore_patterns.as_slice(),
        ) {
            return false;
        }
        let key = path_to_string_lossy(path);
        self.registry.should_dispatch(key.as_str(), now, self.debounce)
    }
}

} // verus!
