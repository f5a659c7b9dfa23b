//! The resource-change watcher: resolves a waiter once a watched value,
//! observed at tick boundaries, changes to one its filter accepts.
//!
//! Each watch remembers the last value it observed under its path. A tick
//! hands the table a path and the value now held there; only watches on that
//! path whose remembered value differs are touched — a watch whose filter
//! accepts the new value resolves and leaves the table, any other merely
//! remembers it. A freshly created watch has observed nothing yet, so the
//! first value it sees counts as a change.

use vstd::prelude::*;

use crate::signals::Filter;
use crate::signals::filter_accepts;

verus! {

/// One standing observation of a shared-state field.
#[derive(Clone, Copy, Debug)]
pub struct ValueWatcher {
    /// The task handle to resolve.
    pub promise: u64,
    /// Which field path this watch observes.
    pub path: u64,
    /// The condition on the newly observed value.
    pub filter: Filter,
    /// The value observed on the last tick that touched this watch.
    pub last: Option<u64>,
}

impl ValueWatcher {
    /// Whether the watch has seen a value its filter accepts.
    pub open spec fn spec_resolved(self) -> bool {
        match self.last {
            Some(v) => filter_accepts(self.filter, v),
            None => false,
        }
    }

    pub fn resolved(&self) -> (r: bool)
        ensures
            r == self.spec_resolved(),
    {
        match self.last {
            Some(v) => self.filter.accepts(v),
            None => false,
        }
    }
}

/// No two watches share a promise id.
pub open spec fn w_unique_ids(s: Seq<ValueWatcher>) -> bool {
    forall|i: int, j: int| 0 <= i < j < s.len() ==> s[i].promise != s[j].promise
}

/// Some watch carries the promise id `p`.
pub open spec fn w_has_id(s: Seq<ValueWatcher>, p: u64) -> bool {
    exists|i: int| 0 <= i < s.len() && s[i].promise == p
}

/// The watches of `s` in order, with every one of promise id `p` gone.
pub open spec fn w_without_id(s: Seq<ValueWatcher>, p: u64) -> Seq<ValueWatcher>
    decreases s.len(),
{
    if s.len() == 0 {
        Seq::empty()
    } else {
        let rest = w_without_id(s.drop_last(), p);
        if s.last().promise == p {
            rest
        } else {
            rest.push(s.last())
        }
    }
}

/// A tick over `path` with `value` touches `w`: right path, changed value.
pub open spec fn tick_touches(w: ValueWatcher, path: u64, value: u64) -> bool {
    w.path == path && w.last != Some(value)
}

/// A tick resolves `w`: it touches it and the filter accepts the new value.
pub open spec fn tick_fires(w: ValueWatcher, path: u64, value: u64) -> bool {
    tick_touches(w, path, value) && filter_accepts(w.filter, value)
}

/// What a surviving watch looks like after the tick: one on the ticked path
/// remembers the new value, any other is untouched.
pub open spec fn after_tick(w: ValueWatcher, path: u64, value: u64) -> ValueWatcher {
    if w.path == path {
        ValueWatcher { last: Some(value), ..w }
    } else {
        w
    }
}

/// The watches that survive a tick, in order, with their observations.
pub open spec fn tick_kept(s: Seq<ValueWatcher>, path: u64, value: u64) -> Seq<ValueWatcher>
    decreases s.len(),
{
    if s.len() == 0 {
        Seq::empty()
    } else {
        let rest = tick_kept(s.drop_last(), path, value);
        if tick_fires(s.last(), path, value) {
            rest
        } else {
            rest.push(after_tick(s.last(), path, value))
        }
    }
}

/// The promise ids a tick resolves, in watch order.
pub open spec fn tick_fired(s: Seq<ValueWatcher>, path: u64, value: u64) -> Seq<u64>
    decreases s.len(),
{
    if s.len() == 0 {
        Seq::empty()
    } else {
        let rest = tick_fired(s.drop_last(), path, value);
        if tick_fires(s.last(), path, value) {
            rest.push(s.last().promise)
        } else {
            rest
        }
    }
}

pub(crate) proof fn lemma_w_has_id_drop_last(s: Seq<ValueWatcher>, p: u64)
    requires
        s.len() > 0,
    ensures
        w_has_id(s, p) <==> (w_has_id(s.drop_last(), p) || s.last().promise == p),
{
    if w_has_id(s, p) {
        let i = choose|i: int| 0 <= i < s.len() && s[i].promise == p;
        if i < s.len() - 1 {
            assert(s.drop_last()[i].promise == p);
        }
    }
    if w_has_id(s.drop_last(), p) {
        let i = choose|i: int| 0 <= i < s.drop_last().len() && s.drop_last()[i].promise == p;
        assert(s[i].promise == p);
    }
    if s.last().promise == p {
        assert(s[s.len() - 1].promise == p);
    }
}

pub(crate) proof fn lemma_w_push_has_id(s: Seq<ValueWatcher>, w: ValueWatcher, p: u64)
    ensures
        w_has_id(s.push(w), p) <==> (w_has_id(s, p) || w.promise == p),
{
    assert(s.push(w).drop_last() =~= s);
    lemma_w_has_id_drop_last(s.push(w), p);
}

pub(crate) proof fn lemma_w_unique_push(s: Seq<ValueWatcher>, w: ValueWatcher)
    requires
        w_unique_ids(s),
        !w_has_id(s, w.promise),
    ensures
        w_unique_ids(s.push(w)),
{
    assert forall|i: int, j: int| 0 <= i < j < s.push(w).len() implies s.push(w)[i].promise
        != s.push(w)[j].promise by {
        if j == s.len() {
            assert(s[i].promise != w.promise);
        }
    }
}

/// What removing one watch id leaves behind; removing an absent id changes
/// nothing, so cancelling a watch is idempotent.
pub(crate) proof fn lemma_w_without_id(s: Seq<ValueWatcher>, p: u64)
    ensures
        !w_has_id(w_without_id(s, p), p),
        forall|q: u64| w_has_id(w_without_id(s, p), q) ==> w_has_id(s, q),
        forall|q: u64| q != p && w_has_id(s, q) ==> w_has_id(w_without_id(s, p), q),
        w_unique_ids(s) ==> w_unique_ids(w_without_id(s, p)),
        !w_has_id(s, p) ==> w_without_id(s, p) == s,
    decreases s.len(),
{
    if s.len() == 0 {
        assert(w_without_id(s, p) =~= s);
    } else {
        let rest = w_without_id(s.drop_last(), p);
        lemma_w_without_id(s.drop_last(), p);
        lemma_w_has_id_drop_last(s, p);
        assert forall|q: u64| w_has_id(w_without_id(s, p), q) implies w_has_id(s, q) by {
            lemma_w_push_has_id(rest, s.last(), q);
            lemma_w_has_id_drop_last(s, q);
        }
        assert forall|q: u64| q != p && w_has_id(s, q) implies w_has_id(w_without_id(s, p), q) by {
            lemma_w_has_id_drop_last(s, q);
            lemma_w_push_has_id(rest, s.last(), q);
        }
        lemma_w_push_has_id(rest, s.last(), p);
        if s.last().promise != p && w_unique_ids(s) {
            assert(w_unique_ids(s.drop_last())) by {
                assert(forall|i: int, j: int|
                    0 <= i < j < s.drop_last().len() ==> s.drop_last()[i] == s[i]
                        && s.drop_last()[j] == s[j]);
            }
            assert(!w_has_id(s.drop_last(), s.last().promise)) by {
                if w_has_id(s.drop_last(), s.last().promise) {
                    let i = choose|i: int|
                        0 <= i < s.drop_last().len() && s.drop_last()[i].promise
                            == s.last().promise;
                    assert(s[i].promise == s[s.len() - 1].promise);
                }
            }
            lemma_w_unique_push(rest, s.last());
        }
        if !w_has_id(s, p) {
            assert(w_without_id(s, p) =~= s.drop_last().push(s.last()));
            assert(s.drop_last().push(s.last()) =~= s);
        }
    }
}

/// The bookkeeping of all active watches.
pub struct WatcherTable {
    entries: Vec<ValueWatcher>,
}

impl View for WatcherTable {
    type V = Seq<ValueWatcher>;

    closed spec fn view(&self) -> Seq<ValueWatcher> {
        self.entries@
    }
}

impl WatcherTable {
    /// The table's invariant: one watch per promise id.
    pub open spec fn wf(self) -> bool {
        w_unique_ids(self@)
    }

    pub fn new() -> (r: WatcherTable)
        ensures
            r@ == Seq::<ValueWatcher>::empty(),
            r.wf(),
    {
        WatcherTable { entries: Vec::new() }
    }

    /// How many watches are active.
    pub fn len(&self) -> (n: usize)
        ensures
            n == self@.len(),
    {
        self.entries.len()
    }

    /// Tears down the watch of `promise` entirely; absent ids are a silent
    /// no-op, so a losing race branch may cancel freely.
    pub fn cancel_watch(&mut self, promise: u64)
        ensures
            final(self)@ == w_without_id(old(self)@, promise),
            !w_has_id(final(self)@, promise),
            old(self).wf() ==> final(self).wf(),
    {
        let mut kept: Vec<ValueWatcher> = Vec::new();
        let n = self.entries.len();
        let mut i: usize = 0;
        while i < n
            invariant
                i <= n,
                n == self.entries.len(),
                self.entries@ == old(self)@,
                kept@ == w_without_id(self.entries@.take(i as int), promise),
            decreases n - i,
        {
            let w = self.entries[i];
            proof {
                assert(self.entries@.take(i as int + 1).drop_last() =~= self.entries@.take(
                    i as int,
                ));
                assert(self.entries@.take(i as int + 1).last() == self.entries@[i as int]);
            }
            if w.promise != promise {
                kept.push(w);
            }
            i = i + 1;
        }
        proof {
            assert(self.entries@.take(n as int) =~= self.entries@);
            lemma_w_without_id(old(self)@, promise);
        }
        self.entries = kept;
    }

    /// Opens a watch of `path` under `filter` for `promise`; the watch has
    /// observed nothing yet. An id already present is replaced.
    pub fn watch(&mut self, promise: u64, path: u64, filter: Filter)
        ensures
            final(self)@ == w_without_id(old(self)@, promise).push(
                ValueWatcher { promise, path, filter, last: None },
            ),
            old(self).wf() ==> final(self).wf(),
    {
        self.cancel_watch(promise);
        proof {
            if old(self).wf() {
                lemma_w_without_id(old(self)@, promise);
                lemma_w_unique_push(
                    w_without_id(old(self)@, promise),
                    ValueWatcher { promise, path, filter, last: None },
                );
            }
        }
        self.entries.push(ValueWatcher { promise, path, filter, last: None });
    }

    /// One change-detection pass for `path`, now holding `value`: resolves
    /// and removes every watch on that path whose remembered value differs
    /// and whose filter accepts `value`; every other watch on the path
    /// remembers `value`; watches on other paths are untouched.
    pub fn tick(&mut self, path: u64, value: u64) -> (fired: Vec<u64>)
        ensures
            final(self)@ == tick_kept(old(self)@, path, value),
            fired@ == tick_fired(old(self)@, path, value),
            old(self).wf() ==> final(self).wf(),
    {
        let mut kept: Vec<ValueWatcher> = Vec::new();
        let mut fired: Vec<u64> = Vec::new();
        let n = self.entries.len();
        let mut i: usize = 0;
        while i < n
            invariant
                i <= n,
                n == self.entries.len(),
                self.entries@ == old(self)@,
                kept@ == tick_kept(self.entries@.take(i as int), path, value),
                fired@ == tick_fired(self.entries@.take(i as int), path, value),
            decreases n - i,
        {
            let w = self.entries[i];
            proof {
                assert(self.entries@.take(i as int + 1).drop_last() =~= self.entries@.take(
                    i as int,
                ));
                assert(self.entries@.take(i as int + 1).last() == self.entries@[i as int]);
            }
            if w.path == path {
                let changed = match w.last {
                    Some(v) => v != value,
                    None => true,
                };
                if changed && w.filter.accepts(value) {
                    fired.push(w.promise);
                } else {
                    kept.push(ValueWatcher { last: Some(value), ..w });
                }
            } else {
                kept.push(w);
            }
            i = i + 1;
        }
        proof {
            assert(self.entries@.take(n as int) =~= self.entries@);
            if old(self).wf() {
                lemma_tick_exact_all(old(self)@, path, value);
            }
        }
        self.entries = kept;
        fired
    }
}

/// Opens a resource watch: the promise resolves on the first tick where the
/// value under `path` has changed to one `filter` accepts.
pub fn resource_changed(watchers: &mut WatcherTable, promise: u64, path: u64, filter: Filter)
    ensures
        final(watchers)@ == w_without_id(old(watchers)@, promise).push(
            ValueWatcher { promise, path, filter, last: None },
        ),
        old(watchers).wf() ==> final(watchers).wf(),
{
    watchers.watch(promise, path, filter);
}

/// A tick in full, for every promise id at once: it resolves exactly the
/// watches it touches whose filter accepts the new value — in particular a
/// watch whose remembered observation already equals the ticked value never
/// resolves, so an unchanged read is never a spurious resolution.
pub proof fn lemma_tick_exact_all(s: Seq<ValueWatcher>, path: u64, value: u64)
    requires
        w_unique_ids(s),
    ensures
        forall|p: u64|
            tick_fired(s, path, value).contains(p) <==> (exists|i: int|
                0 <= i < s.len() && s[i].promise == p && tick_fires(s[i], path, value)),
        forall|p: u64|
            (forall|i: int| 0 <= i < s.len() && s[i].promise == p ==> s[i].last == Some(value))
                ==> !tick_fired(s, path, value).contains(p),
        forall|p: u64|
            w_has_id(tick_kept(s, path, value), p) <==> (w_has_id(s, p) && !tick_fired(
                s,
                path,
                value,
            ).contains(p)),
        w_unique_ids(tick_kept(s, path, value)),
    decreases s.len(),
{
    if s.len() == 0 {
    } else {
        let d = s.drop_last();
        let last = s.last();
        assert(w_unique_ids(d)) by {
            assert(forall|i: int, j: int| 0 <= i < j < d.len() ==> d[i] == s[i] && d[j] == s[j]);
        }
        lemma_tick_exact_all(d, path, value);
        assert(!w_has_id(d, last.promise)) by {
            if w_has_id(d, last.promise) {
                let i = choose|i: int| 0 <= i < d.len() && d[i].promise == last.promise;
                assert(s[i].promise == s[s.len() - 1].promise);
            }
        }
        assert forall|p: u64|
            tick_fired(s, path, value).contains(p) <==> (exists|i: int|
                0 <= i < s.len() && s[i].promise == p && tick_fires(s[i], path, value)) by {
            if tick_fires(last, path, value) {
                crate::signals::lemma_push_contains_u64(
                    tick_fired(d, path, value),
                    last.promise,
                    p,
                );
            }
            if tick_fired(s, path, value).contains(p) {
                if tick_fired(d, path, value).contains(p) {
                    let i = choose|i: int|
                        0 <= i < d.len() && d[i].promise == p && tick_fires(d[i], path, value);
                    assert(s[i].promise == p && tick_fires(s[i], path, value));
                } else {
                    assert(s[s.len() - 1].promise == p && tick_fires(s[s.len() - 1], path, value));
                }
            }
            if exists|i: int|
                0 <= i < s.len() && s[i].promise == p && tick_fires(s[i], path, value) {
                let i = choose|i: int|
                    0 <= i < s.len() && s[i].promise == p && tick_fires(s[i], path, value);
                if i < s.len() - 1 {
                    assert(d[i].promise == p && tick_fires(d[i], path, value));
                    assert(tick_fired(d, path, value).contains(p));
                    if tick_fires(last, path, value) {
                        crate::signals::lemma_push_contains_u64(
                            tick_fired(d, path, value),
                            last.promise,
                            p,
                        );
                    }
                } else {
                    assert(tick_fires(last, path, value));
                    crate::signals::lemma_push_contains_u64(
                        tick_fired(d, path, value),
                        last.promise,
                        p,
                    );
                }
            }
        }
        assert forall|p: u64|
            (forall|i: int| 0 <= i < s.len() && s[i].promise == p ==> s[i].last == Some(value))
                implies !tick_fired(s, path, value).contains(p) by {
            if tick_fired(s, path, value).contains(p) {
                let i = choose|i: int|
                    0 <= i < s.len() && s[i].promise == p && tick_fires(s[i], path, value);
                assert(s[i].last == Some(value));
            }
        }
        assert forall|p: u64|
            w_has_id(tick_kept(s, path, value), p) <==> (w_has_id(s, p) && !tick_fired(
                s,
                path,
                value,
            ).contains(p)) by {
            lemma_w_has_id_drop_last(s, p);
            if tick_fires(last, path, value) {
                crate::signals::lemma_push_contains_u64(
                    tick_fired(d, path, value),
                    last.promise,
                    p,
                );
                if p == last.promise && w_has_id(tick_kept(d, path, value), p) {
                    lemma_tick_kept_ids(d, path, value, p);
                }
            } else {
                lemma_w_push_has_id(tick_kept(d, path, value), after_tick(last, path, value), p);
                if p == last.promise && tick_fired(d, path, value).contains(p) {
                    let i = choose|i: int|
                        0 <= i < d.len() && d[i].promise == p && tick_fires(d[i], path, value);
                    assert(w_has_id(d, p));
                }
            }
        }
        if !tick_fires(last, path, value) {
            let k = tick_kept(d, path, value);
            assert(!w_has_id(k, last.promise)) by {
                if w_has_id(k, last.promise) {
                    let i = choose|i: int| 0 <= i < k.len() && k[i].promise == last.promise;
                    assert(w_unique_ids(k));
                    lemma_tick_kept_ids(d, path, value, last.promise);
                }
            }
            assert(w_unique_ids(tick_kept(s, path, value))) by {
                assert forall|i: int, j: int|
                    0 <= i < j < k.push(after_tick(last, path, value)).len() implies k.push(
                    after_tick(last, path, value),
                )[i].promise != k.push(after_tick(last, path, value))[j].promise by {
                    if j == k.len() {
                        assert(k[i].promise != last.promise);
                    }
                }
            }
        }
    }
}

/// A resolved watch never fires again: an id one tick resolved has left the
/// table, so no later tick — whatever it observes — can resolve it once
/// more.
pub proof fn lemma_resolved_watch_never_fires_again(
    s: Seq<ValueWatcher>,
    path1: u64,
    value1: u64,
    path2: u64,
    value2: u64,
    p: u64,
)
    requires
        w_unique_ids(s),
        tick_fired(s, path1, value1).contains(p),
    ensures
        !tick_fired(tick_kept(s, path1, value1), path2, value2).contains(p),
{
    lemma_tick_exact_all(s, path1, value1);
    let k = tick_kept(s, path1, value1);
    assert(w_has_id(s, p)) by {
        let i = choose|i: int|
            0 <= i < s.len() && s[i].promise == p && tick_fires(s[i], path1, value1);
    }
    assert(!w_has_id(tick_kept(s, path1, value1), p));
    lemma_tick_exact_all(k, path2, value2);
    if tick_fired(k, path2, value2).contains(p) {
        let i = choose|i: int|
            0 <= i < k.len() && k[i].promise == p && tick_fires(k[i], path2, value2);
        assert(w_has_id(k, p));
    }
}

/// Cancelling a watch is idempotent: tearing down an id twice leaves what
/// one teardown left, and tearing down an absent id — never opened, already
/// resolved, or already cancelled — changes nothing at all.
pub proof fn lemma_cancel_watch_idempotent(s: Seq<ValueWatcher>, p: u64)
    ensures
        w_without_id(w_without_id(s, p), p) == w_without_id(s, p),
        !w_has_id(s, p) ==> w_without_id(s, p) == s,
{
    lemma_w_without_id(s, p);
    lemma_w_without_id(w_without_id(s, p), p);
}

/// A kept watch keeps its promise id: every id in the kept sequence was in
/// the table before the tick.
pub(crate) proof fn lemma_tick_kept_ids(s: Seq<ValueWatcher>, path: u64, value: u64, p: u64)
    ensures
        w_has_id(tick_kept(s, path, value), p) ==> w_has_id(s, p),
    decreases s.len(),
{
    if s.len() == 0 {
    } else {
        let d = s.drop_last();
        let last = s.last();
        lemma_tick_kept_ids(d, path, value, p);
        if w_has_id(tick_kept(s, path, value), p) {
            if !tick_fires(last, path, value) {
                lemma_w_push_has_id(tick_kept(d, path, value), after_tick(last, path, value), p);
                if w_has_id(d, p) {
                    lemma_w_has_id_drop_last(s, p);
                } else if after_tick(last, path, value).promise == p {
                    assert(s[s.len() - 1].promise == p);
                } else {
                    lemma_w_has_id_drop_last(s, p);
                }
            } else {
                lemma_w_has_id_drop_last(s, p);
            }
        }
    }
}

} // verus!
