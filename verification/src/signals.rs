//! The signal registry: correlates fired events with pending awaiters.
//!
//! An awaiter is a promise id registered against a source (a UI element
//! handle) together with a filter over the value the event carries. A
//! dispatch pass hands an event to the registry; every registration whose
//! source the event names and whose filter accepts the carried value is
//! resolved exactly once and removed. Cancelling removes a registration
//! without any further effect and is a no-op on an absent id.

use vstd::prelude::*;

verus! {

/// The value a button event carries when the button was pressed.
pub const PRESSED: u64 = 1;

/// A first-order filter over the value an event carries.
#[derive(Clone, Copy, Debug, PartialEq, Eq, Structural)]
pub enum Filter {
    /// Accepts every value.
    Always,
    /// Accepts exactly the given value.
    EqualTo(u64),
    /// Accepts every value but the given one.
    NotEqualTo(u64),
}

pub open spec fn filter_accepts(f: Filter, v: u64) -> bool {
    match f {
        Filter::Always => true,
        Filter::EqualTo(x) => v == x,
        Filter::NotEqualTo(x) => v != x,
    }
}

impl Filter {
    pub fn accepts(&self, v: u64) -> (r: bool)
        ensures
            r == filter_accepts(*self, v),
    {
        match *self {
            Filter::Always => true,
            Filter::EqualTo(x) => v == x,
            Filter::NotEqualTo(x) => v != x,
        }
    }
}

/// One pending awaiter: a promise waiting on a source, guarded by a filter.
#[derive(Clone, Copy, Debug, PartialEq, Eq, Structural)]
pub struct Registration {
    /// The task handle to resolve.
    pub promise: u64,
    /// The source (UI element handle) the awaiter listens on.
    pub source: u64,
    /// Accepts or rejects the value a fired event carries.
    pub filter: Filter,
}

/// A fired event: the sources it concerns and the value it carries.
#[derive(Debug)]
pub struct SignalEvent {
    /// Every source handle the event speaks for.
    pub sources: Vec<u64>,
    /// The carried value, e.g. `PRESSED` for a press.
    pub value: u64,
}

/// No two registrations share a promise id.
pub open spec fn unique_ids(s: Seq<Registration>) -> bool {
    forall|i: int, j: int| 0 <= i < j < s.len() ==> s[i].promise != s[j].promise
}

/// Some registration carries the promise id `p`.
pub open spec fn has_id(s: Seq<Registration>, p: u64) -> bool {
    exists|i: int| 0 <= i < s.len() && s[i].promise == p
}

/// The registrations of `s` in order, with every one of promise id `p` gone.
pub open spec fn without_id(s: Seq<Registration>, p: u64) -> Seq<Registration>
    decreases s.len(),
{
    if s.len() == 0 {
        Seq::empty()
    } else {
        let rest = without_id(s.drop_last(), p);
        if s.last().promise == p {
            rest
        } else {
            rest.push(s.last())
        }
    }
}

/// Does an event over `sources` carrying `value` hit registration `r`?
pub open spec fn hits(r: Registration, sources: Seq<u64>, value: u64) -> bool {
    sources.contains(r.source) && filter_accepts(r.filter, value)
}

/// The registrations that survive a dispatch, in order.
pub open spec fn kept_after(s: Seq<Registration>, sources: Seq<u64>, value: u64) -> Seq<
    Registration,
>
    decreases s.len(),
{
    if s.len() == 0 {
        Seq::empty()
    } else {
        let rest = kept_after(s.drop_last(), sources, value);
        if hits(s.last(), sources, value) {
            rest
        } else {
            rest.push(s.last())
        }
    }
}

/// The promise ids a dispatch resolves, in registration order.
pub open spec fn fired_ids(s: Seq<Registration>, sources: Seq<u64>, value: u64) -> Seq<u64>
    decreases s.len(),
{
    if s.len() == 0 {
        Seq::empty()
    } else {
        let rest = fired_ids(s.drop_last(), sources, value);
        if hits(s.last(), sources, value) {
            rest.push(s.last().promise)
        } else {
            rest
        }
    }
}

/// No id occurs twice.
pub open spec fn unique_u64s(s: Seq<u64>) -> bool {
    forall|i: int, j: int| 0 <= i < j < s.len() ==> s[i] != s[j]
}

pub(crate) proof fn lemma_push_contains_u64(s: Seq<u64>, x: u64, p: u64)
    ensures
        s.push(x).contains(p) <==> (s.contains(p) || p == x),
{
    if s.push(x).contains(p) {
        let i = choose|i: int| 0 <= i < s.push(x).len() && s.push(x)[i] == p;
        if i < s.len() {
            assert(s[i] == p);
        }
    }
    if s.contains(p) {
        let i = choose|i: int| 0 <= i < s.len() && s[i] == p;
        assert(s.push(x)[i] == p);
    }
    if p == x {
        assert(s.push(x)[s.len() as int] == p);
    }
}

pub(crate) proof fn lemma_has_id_drop_last(s: Seq<Registration>, p: u64)
    requires
        s.len() > 0,
    ensures
        has_id(s, p) <==> (has_id(s.drop_last(), p) || s.last().promise == p),
{
    if has_id(s, p) {
        let i = choose|i: int| 0 <= i < s.len() && s[i].promise == p;
        if i < s.len() - 1 {
            assert(s.drop_last()[i].promise == p);
        }
    }
    if has_id(s.drop_last(), p) {
        let i = choose|i: int| 0 <= i < s.drop_last().len() && s.drop_last()[i].promise == p;
        assert(s[i].promise == p);
    }
    if s.last().promise == p {
        assert(s[s.len() - 1].promise == p);
    }
}

pub(crate) proof fn lemma_push_has_id(s: Seq<Registration>, r: Registration, p: u64)
    ensures
        has_id(s.push(r), p) <==> (has_id(s, p) || r.promise == p),
{
    assert(s.push(r).drop_last() =~= s);
    lemma_has_id_drop_last(s.push(r), p);
}

/// What removing one promise id leaves behind: the id itself is gone, every
/// other id is untouched, uniqueness survives, and removing an absent id
/// changes nothing.
pub(crate) proof fn lemma_without_id(s: Seq<Registration>, p: u64)
    ensures
        !has_id(without_id(s, p), p),
        forall|q: u64| has_id(without_id(s, p), q) ==> has_id(s, q),
        forall|q: u64| q != p && has_id(s, q) ==> has_id(without_id(s, p), q),
        unique_ids(s) ==> unique_ids(without_id(s, p)),
        !has_id(s, p) ==> without_id(s, p) == s,
    decreases s.len(),
{
    if s.len() == 0 {
        assert(without_id(s, p) =~= s);
    } else {
        let rest = without_id(s.drop_last(), p);
        lemma_without_id(s.drop_last(), p);
        lemma_has_id_drop_last(s, p);
        assert forall|q: u64| has_id(without_id(s, p), q) implies has_id(s, q) by {
            lemma_push_has_id(rest, s.last(), q);
            lemma_has_id_drop_last(s, q);
        }
        assert forall|q: u64| q != p && has_id(s, q) implies has_id(without_id(s, p), q) by {
            lemma_has_id_drop_last(s, q);
            lemma_push_has_id(rest, s.last(), q);
        }
        if s.last().promise == p {
            lemma_push_has_id(rest, s.last(), p);
        } else {
            lemma_push_has_id(rest, s.last(), p);
            if unique_ids(s) {
                assert(unique_ids(s.drop_last())) by {
                    assert(forall|i: int, j: int|
                        0 <= i < j < s.drop_last().len() ==> s.drop_last()[i] == s[i]
                            && s.drop_last()[j] == s[j]);
                }
                assert(!has_id(s.drop_last(), s.last().promise)) by {
                    if has_id(s.drop_last(), s.last().promise) {
                        let i = choose|i: int|
                            0 <= i < s.drop_last().len() && s.drop_last()[i].promise
                                == s.last().promise;
                        assert(s[i].promise == s[s.len() - 1].promise);
                    }
                }
                assert(!has_id(rest, s.last().promise));
                assert(unique_ids(rest.push(s.last()))) by {
                    lemma_unique_push(rest, s.last());
                }
            }
        }
        if !has_id(s, p) {
            assert(without_id(s, p) =~= s.drop_last().push(s.last()));
            assert(s.drop_last().push(s.last()) =~= s);
        }
    }
}

pub(crate) proof fn lemma_unique_push(s: Seq<Registration>, r: Registration)
    requires
        unique_ids(s),
        !has_id(s, r.promise),
    ensures
        unique_ids(s.push(r)),
{
    assert forall|i: int, j: int| 0 <= i < j < s.push(r).len() implies s.push(r)[i].promise
        != s.push(r)[j].promise by {
        if j == s.len() {
            assert(s[i].promise != r.promise);
        }
    }
}

/// The two-way index of pending awaiters.
pub struct SignalsRegistry {
    entries: Vec<Registration>,
}

impl View for SignalsRegistry {
    type V = Seq<Registration>;

    closed spec fn view(&self) -> Seq<Registration> {
        self.entries@
    }
}

impl SignalsRegistry {
    /// The registry's invariant: one entry per promise id.
    pub open spec fn wf(self) -> bool {
        unique_ids(self@)
    }

    pub fn new() -> (r: SignalsRegistry)
        ensures
            r@ == Seq::<Registration>::empty(),
            r.wf(),
    {
        SignalsRegistry { entries: Vec::new() }
    }

    /// How many awaiters are pending.
    pub fn len(&self) -> (n: usize)
        ensures
            n == self@.len(),
    {
        self.entries.len()
    }

    /// Removes the registration of `promise`, if any; absent ids are a
    /// silent no-op.
    pub fn discard_promise(&mut self, promise: u64)
        ensures
            final(self)@ == without_id(old(self)@, promise),
            !has_id(final(self)@, promise),
            old(self).wf() ==> final(self).wf(),
    {
        let mut kept: Vec<Registration> = Vec::new();
        let n = self.entries.len();
        let mut i: usize = 0;
        while i < n
            invariant
                i <= n,
                n == self.entries.len(),
                self.entries@ == old(self)@,
                kept@ == without_id(self.entries@.take(i as int), promise),
            decreases n - i,
        {
            let r = self.entries[i];
            proof {
                assert(self.entries@.take(i as int + 1).drop_last() =~= self.entries@.take(
                    i as int,
                ));
                assert(self.entries@.take(i as int + 1).last() == self.entries@[i as int]);
            }
            if r.promise != promise {
                kept.push(r);
            }
            i = i + 1;
        }
        proof {
            assert(self.entries@.take(n as int) =~= self.entries@);
            lemma_without_id(old(self)@, promise);
        }
        self.entries = kept;
    }

    /// Registers `promise` against `source` under `filter`; an id already
    /// present is replaced.
    pub fn register_promise(&mut self, promise: u64, source: u64, filter: Filter)
        ensures
            final(self)@ == without_id(old(self)@, promise).push(
                Registration { promise, source, filter },
            ),
            old(self).wf() ==> final(self).wf(),
    {
        self.discard_promise(promise);
        proof {
            if old(self).wf() {
                lemma_without_id(old(self)@, promise);
                lemma_unique_push(
                    without_id(old(self)@, promise),
                    Registration { promise, source, filter },
                );
            }
        }
        self.entries.push(Registration { promise, source, filter });
    }

    /// Dispatch: resolves and removes every registration the event hits,
    /// returning their promise ids; an event that hits nothing returns an
    /// empty set and leaves the registry as it was.
    pub fn drain_promises_for(&mut self, event: &SignalEvent) -> (fired: Vec<u64>)
        ensures
            final(self)@ == kept_after(old(self)@, event.sources@, event.value),
            fired@ == fired_ids(old(self)@, event.sources@, event.value),
            old(self).wf() ==> final(self).wf(),
            old(self).wf() ==> unique_u64s(fired@),
    {
        let mut kept: Vec<Registration> = Vec::new();
        let mut fired: Vec<u64> = Vec::new();
        let n = self.entries.len();
        let mut i: usize = 0;
        while i < n
            invariant
                i <= n,
                n == self.entries.len(),
                self.entries@ == old(self)@,
                kept@ == kept_after(self.entries@.take(i as int), event.sources@, event.value),
                fired@ == fired_ids(self.entries@.take(i as int), event.sources@, event.value),
            decreases n - i,
        {
            let r = self.entries[i];
            proof {
                assert(self.entries@.take(i as int + 1).drop_last() =~= self.entries@.take(
                    i as int,
                ));
                assert(self.entries@.take(i as int + 1).last() == self.entries@[i as int]);
            }
            if source_matches(&event.sources, r.source) && r.filter.accepts(event.value) {
                fired.push(r.promise);
            } else {
                kept.push(r);
            }
            i = i + 1;
        }
        proof {
            assert(self.entries@.take(n as int) =~= self.entries@);
            if old(self).wf() {
                lemma_dispatch_exact_all(old(self)@, event.sources@, event.value);
            }
        }
        self.entries = kept;
        fired
    }
}

/// Linear scan for a source handle.
fn source_matches(sources: &Vec<u64>, x: u64) -> (r: bool)
    ensures
        r == sources@.contains(x),
{
    let n = sources.len();
    let mut i: usize = 0;
    while i < n
        invariant
            i <= n,
            n == sources@.len(),
            forall|k: int| 0 <= k < i ==> sources@[k] != x,
        decreases n - i,
    {
        if sources[i] == x {
            assert(sources@[i as int] == x);
            return true;
        }
        i = i + 1;
    }
    false
}

/// Registers a press awaiter for a button: the promise resolves when an
/// event naming the button carries the pressed value.
pub fn pressed(registry: &mut SignalsRegistry, promise: u64, button: u64)
    ensures
        final(registry)@ == without_id(old(registry)@, promise).push(
            Registration { promise, source: button, filter: Filter::EqualTo(PRESSED) },
        ),
        old(registry).wf() ==> final(registry).wf(),
{
    registry.register_promise(promise, button, Filter::EqualTo(PRESSED));
}

/// Dispatch in full, for every promise id at once: an event resolves exactly
/// the registered awaiters whose source it names and whose filter accepts its
/// value, each exactly once; every resolved awaiter leaves the registry, and
/// an id not registered is never resolved.
pub proof fn lemma_dispatch_exact_all(s: Seq<Registration>, sources: Seq<u64>, value: u64)
    requires
        unique_ids(s),
    ensures
        forall|p: u64|
            fired_ids(s, sources, value).contains(p) <==> (exists|i: int|
                0 <= i < s.len() && s[i].promise == p && hits(s[i], sources, value)),
        forall|p: u64| !has_id(s, p) ==> !fired_ids(s, sources, value).contains(p),
        forall|p: u64|
            has_id(kept_after(s, sources, value), p) <==> (has_id(s, p) && !fired_ids(
                s,
                sources,
                value,
            ).contains(p)),
        unique_u64s(fired_ids(s, sources, value)),
        unique_ids(kept_after(s, sources, value)),
    decreases s.len(),
{
    if s.len() == 0 {
    } else {
        let d = s.drop_last();
        let last = s.last();
        assert(unique_ids(d)) by {
            assert(forall|i: int, j: int| 0 <= i < j < d.len() ==> d[i] == s[i] && d[j] == s[j]);
        }
        lemma_dispatch_exact_all(d, sources, value);
        assert(!has_id(d, last.promise)) by {
            if has_id(d, last.promise) {
                let i = choose|i: int| 0 <= i < d.len() && d[i].promise == last.promise;
                assert(s[i].promise == s[s.len() - 1].promise);
            }
        }
        assert forall|p: u64|
            fired_ids(s, sources, value).contains(p) <==> (exists|i: int|
                0 <= i < s.len() && s[i].promise == p && hits(s[i], sources, value)) by {
            if hits(last, sources, value) {
                lemma_push_contains_u64(fired_ids(d, sources, value), last.promise, p);
            }
            if fired_ids(s, sources, value).contains(p) {
                if fired_ids(d, sources, value).contains(p) {
                    let i = choose|i: int|
                        0 <= i < d.len() && d[i].promise == p && hits(d[i], sources, value);
                    assert(s[i].promise == p && hits(s[i], sources, value));
                } else {
                    assert(s[s.len() - 1].promise == p && hits(s[s.len() - 1], sources, value));
                }
            }
            if exists|i: int| 0 <= i < s.len() && s[i].promise == p && hits(s[i], sources, value) {
                let i = choose|i: int|
                    0 <= i < s.len() && s[i].promise == p && hits(s[i], sources, value);
                if i < s.len() - 1 {
                    assert(d[i].promise == p && hits(d[i], sources, value));
                    assert(fired_ids(d, sources, value).contains(p));
                    if hits(last, sources, value) {
                        lemma_push_contains_u64(fired_ids(d, sources, value), last.promise, p);
                    }
                } else {
                    assert(hits(last, sources, value));
                    lemma_push_contains_u64(fired_ids(d, sources, value), last.promise, p);
                }
            }
        }
        assert forall|p: u64| !has_id(s, p) implies !fired_ids(s, sources, value).contains(p) by {
            lemma_has_id_drop_last(s, p);
        }
        assert forall|p: u64|
            has_id(kept_after(s, sources, value), p) <==> (has_id(s, p) && !fired_ids(
                s,
                sources,
                value,
            ).contains(p)) by {
            lemma_has_id_drop_last(s, p);
            if !hits(last, sources, value) {
                lemma_push_has_id(kept_after(d, sources, value), last, p);
            } else {
                lemma_push_contains_u64(fired_ids(d, sources, value), last.promise, p);
            }
        }
        if hits(last, sources, value) {
            assert(unique_u64s(fired_ids(s, sources, value))) by {
                let f = fired_ids(d, sources, value);
                assert(!f.contains(last.promise));
                assert forall|i: int, j: int|
                    0 <= i < j < f.push(last.promise).len() implies f.push(last.promise)[i]
                    != f.push(last.promise)[j] by {
                    if j == f.len() {
                        assert(f[i] == f.push(last.promise)[i]);
                        if f[i] == last.promise {
                            assert(f.contains(last.promise));
                        }
                    }
                }
            }
        } else {
            assert(unique_ids(kept_after(s, sources, value))) by {
                let k = kept_after(d, sources, value);
                assert(!has_id(k, last.promise));
                lemma_unique_push(k, last);
            }
        }
    }
}

/// Cancelling is idempotent: discarding an id twice leaves what one discard
/// left, and discarding an id that is absent — never registered, already
/// resolved, or already cancelled — changes nothing at all.
pub proof fn lemma_cancel_idempotent(s: Seq<Registration>, p: u64)
    ensures
        without_id(without_id(s, p), p) == without_id(s, p),
        !has_id(s, p) ==> without_id(s, p) == s,
{
    lemma_without_id(s, p);
    lemma_without_id(without_id(s, p), p);
}

/// A resolved awaiter never fires again: an id one dispatch resolved has
/// left the registry, so no later dispatch — whatever its sources and
/// value — can resolve it once more.
pub proof fn lemma_resolved_never_fires_again(
    s: Seq<Registration>,
    sources1: Seq<u64>,
    value1: u64,
    sources2: Seq<u64>,
    value2: u64,
    p: u64,
)
    requires
        unique_ids(s),
        fired_ids(s, sources1, value1).contains(p),
    ensures
        !fired_ids(kept_after(s, sources1, value1), sources2, value2).contains(p),
{
    lemma_dispatch_exact_all(s, sources1, value1);
    let k = kept_after(s, sources1, value1);
    assert(has_id(s, p)) by {
        let i = choose|i: int|
            0 <= i < s.len() && s[i].promise == p && hits(s[i], sources1, value1);
    }
    assert(!has_id(kept_after(s, sources1, value1), p));
    lemma_dispatch_exact_all(k, sources2, value2);
    if fired_ids(k, sources2, value2).contains(p) {
        let i = choose|i: int| 0 <= i < k.len() && k[i].promise == p && hits(k[i], sources2, value2);
        assert(has_id(k, p));
    }
}

/// A cancelled awaiter never fires: once its id is discarded, no dispatch
/// resolves it.
pub proof fn lemma_cancelled_never_fires(
    s: Seq<Registration>,
    p: u64,
    sources: Seq<u64>,
    value: u64,
)
    requires
        unique_ids(s),
    ensures
        !fired_ids(without_id(s, p), sources, value).contains(p),
{
    lemma_without_id(s, p);
    lemma_dispatch_exact_all(without_id(s, p), sources, value);
}

} // verus!
