//! Suppression of repeated dispatches for one path.
//!
//! The registry remembers, for each path, when a dispatch was last accepted.
//! Times are milliseconds on a clock of the caller's choosing. The model of
//! a registry is a map from path text to that time.

use crate::text::{chars_equal, chars_of};
use vstd::prelude::*;

verus! {

/// How long an entry is kept, in milliseconds. Older entries are dropped
/// whenever a dispatch is accepted; this bounds memory and has no part in
/// deciding a dispatch.
pub const RETENTION_MS: u64 = 10000;

/// The time from `last` to `now`, counted as zero where `now` is the earlier.
pub open spec fn elapsed_ms(now: u64, last: u64) -> nat {
    if now >= last {
        (now - last) as nat
    } else {
        0
    }
}

/// Whether an event for `path` at `now` is dispatched: it is, unless a
/// dispatch of the same path was accepted less than `window` before.
pub open spec fn dispatches(
    seen: Map<Seq<char>, u64>,
    path: Seq<char>,
    now: u64,
    window: u64,
) -> bool {
    !(seen.dom().contains(path) && elapsed_ms(now, seen[path]) < window)
}

/// The entries of `seen` that are younger than the retention time at `now`.
pub open spec fn retained(seen: Map<Seq<char>, u64>, now: u64) -> Map<Seq<char>, u64> {
    Map::new(
        |p: Seq<char>| seen.dom().contains(p) && elapsed_ms(now, seen[p]) < RETENTION_MS,
        |p: Seq<char>| seen[p],
    )
}

/// The registry after a dispatch of `path` was accepted at `now`.
pub open spec fn recorded(seen: Map<Seq<char>, u64>, path: Seq<char>, now: u64) -> Map<
    Seq<char>,
    u64,
> {
    retained(seen.insert(path, now), now)
}

/// The registry after an event for `path` at `now`: a suppressed event
/// leaves it as it was.
pub open spec fn after_event(
    seen: Map<Seq<char>, u64>,
    path: Seq<char>,
    now: u64,
    window: u64,
) -> Map<Seq<char>, u64> {
    if dispatches(seen, path, now, window) {
        recorded(seen, path, now)
    } else {
        seen
    }
}

/// An event that repeats the previous one, at the same time, is suppressed
/// and changes nothing: handling an event twice is the same as handling it
/// once. This needs a window that is not zero.
pub proof fn lemma_repeat_is_suppressed(
    seen: Map<Seq<char>, u64>,
    path: Seq<char>,
    now: u64,
    window: u64,
)
    requires
        window > 0,
    ensures
        !dispatches(after_event(seen, path, now, window), path, now, window),
        after_event(after_event(seen, path, now, window), path, now, window) == after_event(
            seen,
            path,
            now,
            window,
        ),
{
}

/// Two events for one path that lie at least a window apart are both
/// dispatched, provided nothing suppresses the first: once the first is
/// dispatched, so is the second.
pub proof fn lemma_dispatch_after_window(
    seen: Map<Seq<char>, u64>,
    path: Seq<char>,
    first: u64,
    second: u64,
    window: u64,
)
    requires
        second - first >= window,
        dispatches(seen, path, first, window),
    ensures
        dispatches(after_event(seen, path, first, window), path, second, window),
{
}

/// A registry that has seen nothing suppresses nothing.
pub proof fn lemma_fresh_registry_dispatches(path: Seq<char>, now: u64, window: u64)
    ensures
        dispatches(Map::empty(), path, now, window),
{
}

/// While a path is recorded with time `last`, no event for it that arrives
/// from `last` on and before `last + window` is dispatched.
pub proof fn lemma_no_dispatch_within_window(
    seen: Map<Seq<char>, u64>,
    path: Seq<char>,
    now: u64,
    window: u64,
)
    requires
        seen.dom().contains(path),
        seen[path] <= now < seen[path] + window,
    ensures
        !dispatches(seen, path, now, window),
{
}

struct Entry {
    path: Vec<char>,
    last: u64,
}

/// The table of last accepted dispatches.
pub struct DebounceRegistry {
    entries: Vec<Entry>,
}

spec fn distinct(entries: Seq<Entry>) -> bool {
    forall|i: int, j: int|
        0 <= i < j < entries.len() ==> (#[trigger] entries[i]).path@ != (#[trigger] entries[j]).path@
}

spec fn holds(entries: Seq<Entry>, path: Seq<char>) -> bool {
    exists|i: int| 0 <= i < entries.len() && (#[trigger] entries[i]).path@ == path
}

spec fn position(entries: Seq<Entry>, path: Seq<char>) -> int {
    choose|i: int| 0 <= i < entries.len() && (#[trigger] entries[i]).path@ == path
}

spec fn model(entries: Seq<Entry>) -> Map<Seq<char>, u64> {
    Map::new(
        |p: Seq<char>| holds(entries, p),
        |p: Seq<char>| entries[position(entries, p)].last,
    )
}

proof fn lemma_model_at(entries: Seq<Entry>, i: int)
    requires
        distinct(entries),
        0 <= i < entries.len(),
    ensures
        model(entries).dom().contains(entries[i].path@),
        model(entries)[entries[i].path@] == entries[i].last,
{
    let p = entries[i].path@;
    assert(holds(entries, p));
    let k = position(entries, p);
    assert(k == i);
}

proof fn lemma_model_push(entries: Seq<Entry>, e: Entry)
    requires
        distinct(entries),
        !holds(entries, e.path@),
    ensures
        distinct(entries.push(e)),
        model(entries.push(e)) == model(entries).insert(e.path@, e.last),
{
    let grown = entries.push(e);
    assert(distinct(grown)) by {
        assert forall|i: int, j: int| 0 <= i < j < grown.len() implies (#[trigger] grown[i]).path@
            != (#[trigger] grown[j]).path@ by {
            if j == entries.len() {
                assert(grown[i] == entries[i]);
            } else {
                assert(grown[i] == entries[i]);
                assert(grown[j] == entries[j]);
            }
        }
    }
    let left = model(grown);
    let right = model(entries).insert(e.path@, e.last);
    assert forall|p: Seq<char>| left.dom().contains(p) <==> right.dom().contains(p) by {
        if holds(grown, p) {
            let k = position(grown, p);
            if k < entries.len() {
                assert(entries[k] == grown[k]);
            }
        }
        if holds(entries, p) {
            let k = position(entries, p);
            assert(grown[k] == entries[k]);
        }
        if p == e.path@ {
            assert(grown[entries.len() as int] == e);
        }
    }
    assert forall|p: Seq<char>| left.dom().contains(p) implies left[p] == right[p] by {
        let k = position(grown, p);
        lemma_model_at(grown, k);
        if k < entries.len() {
            assert(entries[k] == grown[k]);
            lemma_model_at(entries, k);
        }
    }
    assert(left =~= right);
}

proof fn lemma_model_swap_remove(entries: Seq<Entry>, i: int)
    requires
        distinct(entries),
        0 <= i < entries.len(),
    ensures
        distinct(entries.update(i, entries.last()).drop_last()),
        model(entries.update(i, entries.last()).drop_last()) == model(entries).remove(
            entries[i].path@,
        ),
{
    let n = entries.len() as int;
    let rest = entries.update(i, entries.last()).drop_last();
    let source = |k: int| if k == i { n - 1 } else { k };
    assert forall|k: int| 0 <= k < rest.len() implies #[trigger] rest[k] == entries[source(k)] by {}
    assert(distinct(rest)) by {
        assert forall|a: int, b: int| 0 <= a < b < rest.len() implies (#[trigger] rest[a]).path@
            != (#[trigger] rest[b]).path@ by {
            assert(rest[a] == entries[source(a)]);
            assert(rest[b] == entries[source(b)]);
            if source(a) < source(b) {
                assert(entries[source(a)].path@ != entries[source(b)].path@);
            } else {
                assert(entries[source(b)].path@ != entries[source(a)].path@);
            }
        }
    }
    let left = model(rest);
    let right = model(entries).remove(entries[i].path@);
    assert forall|p: Seq<char>| left.dom().contains(p) <==> right.dom().contains(p) by {
        if holds(rest, p) {
            let k = position(rest, p);
            assert(rest[k] == entries[source(k)]);
            assert(holds(entries, p));
            if source(k) < i {
                assert(entries[source(k)].path@ != entries[i].path@);
            } else {
                assert(entries[i].path@ != entries[source(k)].path@);
            }
        }
        if holds(entries, p) && p != entries[i].path@ {
            let k = position(entries, p);
            if k == n - 1 {
                assert(rest[i] == entries[k]);
            } else {
                assert(rest[k] == entries[k]);
            }
            assert(holds(rest, p));
        }
    }
    assert forall|p: Seq<char>| left.dom().contains(p) implies left[p] == right[p] by {
        let k = position(rest, p);
        lemma_model_at(rest, k);
        assert(rest[k] == entries[source(k)]);
        lemma_model_at(entries, source(k));
    }
    assert(left =~= right);
}

/// Where `key` stands among `entries`, if it does.
fn find(entries: &Vec<Entry>, key: &Vec<char>) -> (found: Option<usize>)
    ensures
        found matches Some(i) ==> i < entries@.len() && entries@[i as int].path@ == key@,
        found is None ==> !holds(entries@, key@),
{
    let mut i: usize = 0;
    while i < entries.len()
        invariant
            0 <= i <= entries@.len(),
            forall|j: int| 0 <= j < i ==> (#[trigger] entries@[j]).path@ != key@,
        decreases entries@.len() - i,
    {
        if chars_equal(&entries[i].path, key) {
            return Some(i);
        }
        i += 1;
    }
    None
}

/// Whether `last` lies less than `limit` before `now`.
fn within(now: u64, last: u64, limit: u64) -> (b: bool)
    ensures
        b == (elapsed_ms(now, last) < limit),
{
    let elapsed: u64 = if now >= last {
        now - last
    } else {
        0
    };
    elapsed < limit
}

/// Drops the entries that have reached the retention time.
fn purge(entries: &mut Vec<Entry>, now: u64)
    requires
        distinct(old(entries)@),
    ensures
        distinct(final(entries)@),
        model(final(entries)@) == retained(model(old(entries)@), now),
{
    let ghost before = model(entries@);
    let mut i: usize = 0;
    while i < entries.len()
        invariant
            distinct(entries@),
            0 <= i <= entries@.len(),
            forall|p: Seq<char>| #[trigger]
                model(entries@).dom().contains(p) ==> before.dom().contains(p) && model(
                    entries@,
                )[p] == before[p],
            forall|p: Seq<char>|
                before.dom().contains(p) && elapsed_ms(now, before[p]) < RETENTION_MS
                    ==> #[trigger] model(entries@).dom().contains(p),
            forall|j: int| 0 <= j < i ==> elapsed_ms(now, (#[trigger] entries@[j]).last) < RETENTION_MS,
        decreases entries@.len() - i,
    {
        proof {
            lemma_model_at(entries@, i as int);
        }
        if within(now, entries[i].last, RETENTION_MS) {
            i += 1;
        } else {
            proof {
                lemma_model_swap_remove(entries@, i as int);
            }
            entries.swap_remove(i);
        }
    }
    proof {
        let left = model(entries@);
        let right = retained(before, now);
        assert forall|p: Seq<char>| left.dom().contains(p) implies right.dom().contains(p) by {
            let k = position(entries@, p);
            lemma_model_at(entries@, k);
        }
        assert(left =~= right);
    }
}

impl View for DebounceRegistry {
    type V = Map<Seq<char>, u64>;

    closed spec fn view(&self) -> Map<Seq<char>, u64> {
        model(self.entries@)
    }
}

impl DebounceRegistry {
    #[verifier::type_invariant]
    spec fn well_formed(self) -> bool {
        distinct(self.entries@)
    }

    /// A registry that has seen nothing.
    pub fn new() -> (registry: DebounceRegistry)
        ensures
            registry@ == Map::<Seq<char>, u64>::empty(),
    {
        let registry = DebounceRegistry { entries: Vec::new() };
        assert(registry@ =~= Map::<Seq<char>, u64>::empty());
        registry
    }

    /// When a dispatch of `path` was last accepted, if the registry still
    /// knows.
    pub fn last_dispatch(&self, path: &str) -> (last: Option<u64>)
        ensures
            last is Some == self@.dom().contains(path@),
            last matches Some(t) ==> t == self@[path@],
    {
        proof {
            use_type_invariant(self);
        }
        let key = chars_of(path);
        match find(&self.entries, &key) {
            Some(i) => {
                proof {
                    lemma_model_at(self.entries@, i as int);
                }
                Some(self.entries[i].last)
            },
            None => None,
        }
    }

    /// Decides whether an event for `path` at time `now` is dispatched, and
    /// records the dispatch if it is.
    ///
    /// The event is suppressed when a dispatch of the same path was accepted
    /// less than `window` milliseconds before `now`. A suppressed event
    /// leaves the registry untouched, so a burst of events cannot push the
    /// next dispatch further away. An accepted one records `now` for the
    /// path and drops every entry that has reached the retention time.
    pub fn should_dispatch(&mut self, path: &str, now: u64, window: u64) -> (go: bool)
        ensures
            go == dispatches(old(self)@, path@, now, window),
            final(self)@ == after_event(old(self)@, path@, now, window),
    {
        proof {
            use_type_invariant(&*self);
        }
        let key = chars_of(path);
        let found = find(&self.entries, &key);
        if let Some(i) = found {
            proof {
                lemma_model_at(self.entries@, i as int);
            }
            if within(now, self.entries[i].last, window) {
                return false;
            }
        }
        let ghost before = self@;
        let mut entries: Vec<Entry> = Vec::new();
        core::mem::swap(&mut self.entries, &mut entries);
        if let Some(i) = found {
            proof {
                lemma_model_swap_remove(entries@, i as int);
            }
            entries.swap_remove(i);
        }
        assert(model(entries@) =~= before.remove(path@));
        let ghost trimmed = model(entries@);
        purge(&mut entries, now);
        proof {
            assert(!holds(entries@, key@)) by {
                if holds(entries@, key@) {
                    assert(model(entries@).dom().contains(key@));
                }
            }
            lemma_model_push(entries@, Entry { path: key, last: now });
        }
        entries.push(Entry { path: key, last: now });
        assert(model(entries@) =~= recorded(before, path@, now));
        self.entries = entries;
        true
    }

    /// The number of paths the registry knows.
    pub fn len(&self) -> (n: usize)
        ensures
            n == self@.dom().len(),
            self@.dom().finite(),
    {
        proof {
            use_type_invariant(self);
            lemma_model_size(self.entries@);
        }
        self.entries.len()
    }
}

proof fn lemma_model_size(entries: Seq<Entry>)
    requires
        distinct(entries),
    ensures
        model(entries).dom().finite(),
        model(entries).dom().len() == entries.len(),
    decreases entries.len(),
{
    if entries.len() == 0 {
        assert(model(entries).dom() =~= Set::<Seq<char>>::empty());
    } else {
        let init = entries.drop_last();
        let e = entries.last();
        assert(distinct(init)) by {
            assert forall|i: int, j: int| 0 <= i < j < init.len() implies (#[trigger] init[i]).path@
                != (#[trigger] init[j]).path@ by {
                assert(init[i] == entries[i]);
                assert(init[j] == entries[j]);
            }
        }
        assert(!holds(init, e.path@)) by {
            if holds(init, e.path@) {
                let k = position(init, e.path@);
                assert(init[k] == entries[k]);
                assert(entries[k].path@ != entries[entries.len() - 1].path@);
            }
        }
        lemma_model_size(init);
        lemma_model_push(init, e);
        assert(init.push(e) =~= entries);
    }
}

} // verus!
