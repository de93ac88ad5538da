//! The udev event store: per device, the last `add` and `remove` uevents seen
//! on the host, handed out once with take-with-tombstone semantics, and
//! evicted after a time to live.

use vstd::prelude::*;
use crate::text::{chars_eq_str, chars_of};

verus! {

/// The properties of a uevent, as `(key, value)` pairs in order.
pub type Properties = Vec<(String, String)>;

/// The text of a property list.
pub open spec fn props_view(p: Seq<(String, String)>) -> Seq<(Seq<char>, Seq<char>)> {
    p.map_values(|e: (String, String)| (e.0@, e.1@))
}

/// A copy of a property list.
pub fn copy_properties(p: &Properties) -> (r: Properties)
    ensures
        r@ == p@,
{
    let mut out: Properties = Vec::new();
    let mut i: usize = 0;
    while i < p.len()
        invariant
            i <= p@.len(),
            out@ == p@.subrange(0, i as int),
        decreases p@.len() - i,
    {
        let (k, v) = &p[i];
        out.push((k.clone(), v.clone()));
        i = i + 1;
        assert(out@ =~= p@.subrange(0, i as int));
    }
    assert(p@.subrange(0, i as int) =~= p@);
    out
}

#[derive(Clone, Copy, Debug, PartialEq, Eq, Structural)]
pub enum EventKind {
    Add,
    Remove,
}

/// One kernel uevent for a device.
#[derive(Clone, Debug)]
pub struct UdevEvent {
    pub syspath: String,
    pub seqnum: u64,
    pub kind: EventKind,
    pub payload: Properties,
}

/// What the store knows of one device.
#[derive(Clone, Debug)]
pub struct Entry {
    pub syspath: String,
    pub seqnum: u64,
    pub add_data: Option<Properties>,
    pub remove_data: Option<Properties>,
    pub add_processed: bool,
    pub tombstone: bool,
    /// Monotonic time of the last event, in milliseconds.
    pub last_update: u64,
}

/// The value of an entry.
pub struct EntryView {
    pub seqnum: u64,
    pub add_data: Option<Seq<(String, String)>>,
    pub remove_data: Option<Seq<(String, String)>>,
    pub add_processed: bool,
    pub tombstone: bool,
    pub last_update: u64,
}

pub open spec fn opt_props(p: Option<Properties>) -> Option<Seq<(String, String)>> {
    match p {
        Some(v) => Some(v@),
        None => None,
    }
}

impl View for Entry {
    type V = EntryView;

    open spec fn view(&self) -> EntryView {
        EntryView {
            seqnum: self.seqnum,
            add_data: opt_props(self.add_data),
            remove_data: opt_props(self.remove_data),
            add_processed: self.add_processed,
            tombstone: self.tombstone,
            last_update: self.last_update,
        }
    }
}

fn copy_opt_properties(p: &Option<Properties>) -> (r: Option<Properties>)
    ensures
        opt_props(r) == opt_props(*p),
{
    match p {
        Some(v) => Some(copy_properties(v)),
        None => None,
    }
}

impl Entry {
    /// A copy of this entry.
    pub fn duplicate(&self) -> (r: Entry)
        ensures
            r@ == self@,
            r.syspath@ == self.syspath@,
    {
        Entry {
            syspath: self.syspath.clone(),
            seqnum: self.seqnum,
            add_data: copy_opt_properties(&self.add_data),
            remove_data: copy_opt_properties(&self.remove_data),
            add_processed: self.add_processed,
            tombstone: self.tombstone,
            last_update: self.last_update,
        }
    }
}

/// The entry after event `ev` at time `now`, `old` being the entry before, if
/// any: the sequence number and time are the event's, the tombstone is
/// cleared; an `add` replaces the add data and clears the remove data and the
/// processed mark, a `remove` sets the remove data.
pub open spec fn after_event(old: Option<EntryView>, kind: EventKind, seqnum: u64, payload: Seq<(String, String)>, now: u64) -> EntryView {
    let base = match old {
        Some(e) => e,
        None => EntryView {
            seqnum,
            add_data: None,
            remove_data: None,
            add_processed: false,
            tombstone: false,
            last_update: now,
        },
    };
    match kind {
        EventKind::Add => EntryView {
            seqnum,
            last_update: now,
            tombstone: false,
            add_data: Some(payload),
            add_processed: false,
            remove_data: None,
        },
        EventKind::Remove => EntryView {
            seqnum,
            last_update: now,
            tombstone: false,
            remove_data: Some(payload),
            ..base
        },
    }
}

/// The entry after a take: a tombstone stays as it is; otherwise the add
/// counts as processed, and a seen remove makes it a tombstone.
pub open spec fn after_take(e: EntryView) -> EntryView {
    if e.tombstone {
        e
    } else {
        EntryView { add_processed: true, tombstone: e.remove_data is Some, ..e }
    }
}

/// Whether an entry survives a cleanup at `now`.
pub open spec fn survives(e: EntryView, now: u64, ttl: u64) -> bool {
    !e.tombstone && (if now >= e.last_update {
        now - e.last_update
    } else {
        0
    }) < ttl
}

/// The index of the first entry for `p`.
pub open spec fn index_of(es: Seq<Entry>, p: Seq<char>) -> Option<int>
    decreases es.len(),
{
    if es.len() == 0 {
        None
    } else if es[0].syspath@ == p {
        Some(0)
    } else {
        match index_of(es.drop_first(), p) {
            Some(i) => Some(i + 1),
            None => None,
        }
    }
}

/// The entry for `p`, if any.
pub open spec fn lookup(es: Seq<Entry>, p: Seq<char>) -> Option<EntryView> {
    match index_of(es, p) {
        Some(i) => Some(es[i]@),
        None => None,
    }
}

proof fn lemma_index_of(es: Seq<Entry>, p: Seq<char>)
    ensures
        match index_of(es, p) {
            Some(i) => 0 <= i < es.len() && es[i].syspath@ == p && forall|j: int|
                0 <= j < i ==> es[j].syspath@ != p,
            None => forall|j: int| 0 <= j < es.len() ==> es[j].syspath@ != p,
        },
    decreases es.len(),
{
    if es.len() > 0 && es[0].syspath@ != p {
        lemma_index_of(es.drop_first(), p);
        assert forall|j: int| 0 < j < es.len() implies es[j] == es.drop_first()[j - 1] by {}
    }
}

proof fn lemma_index_of_is(es: Seq<Entry>, p: Seq<char>, i: int)
    requires
        0 <= i <= es.len(),
        forall|j: int| 0 <= j < i ==> es[j].syspath@ != p,
        i < es.len() ==> es[i].syspath@ == p,
    ensures
        index_of(es, p) == (if i < es.len() {
            Some(i)
        } else {
            None::<int>
        }),
{
    lemma_index_of(es, p);
}

/// Updating entry `i` of `es` only changes lookups of that entry's key.
proof fn lemma_lookup_update(es: Seq<Entry>, i: int, e: Entry, q: Seq<char>)
    requires
        0 <= i < es.len(),
        e.syspath@ == es[i].syspath@,
        index_of(es, es[i].syspath@) == Some(i),
    ensures
        q == es[i].syspath@ ==> lookup(es.update(i, e), q) == Some(e@),
        q != es[i].syspath@ ==> lookup(es.update(i, e), q) == lookup(es, q),
{
    let es2 = es.update(i, e);
    lemma_index_of(es, q);
    lemma_index_of(es2, q);
    lemma_index_of(es, es[i].syspath@);
    if q == es[i].syspath@ {
        lemma_index_of_is(es2, q, i);
    } else {
        match index_of(es, q) {
            Some(k) => lemma_index_of_is(es2, q, k),
            None => lemma_index_of_is(es2, q, es2.len() as int),
        }
    }
}

/// Looking up in a sequence with one more entry at its end.
proof fn lemma_lookup_push(es: Seq<Entry>, e: Entry, q: Seq<char>)
    ensures
        lookup(es.push(e), q) == match lookup(es, q) {
            Some(x) => Some(x),
            None => if e.syspath@ == q {
                Some(e@)
            } else {
                None
            },
        },
{
    let es2 = es.push(e);
    lemma_index_of(es, q);
    assert forall|j: int| 0 <= j < es.len() implies es2[j] == es[j] by {}
    match index_of(es, q) {
        Some(k) => lemma_index_of_is(es2, q, k),
        None => {
            if e.syspath@ == q {
                lemma_index_of_is(es2, q, es.len() as int);
            } else {
                lemma_index_of_is(es2, q, es2.len() as int);
            }
        },
    }
}

/// No two entries share a syspath.
pub open spec fn unique_keys(es: Seq<Entry>) -> bool {
    forall|a: int, b: int| 0 <= a < b < es.len() ==> es[a].syspath@ != es[b].syspath@
}

/// The store of observed uevents, keyed by syspath.
#[derive(Debug)]
pub struct EventStore {
    entries: Vec<Entry>,
    ttl: u64,
}

impl EventStore {
    /// The entry for syspath `p`, if any.
    pub closed spec fn entry(&self, p: Seq<char>) -> Option<EntryView> {
        lookup(self.entries@, p)
    }

    /// The time to live of entries, in milliseconds.
    pub closed spec fn ttl_ms(&self) -> u64 {
        self.ttl
    }

    /// Each syspath has at most one entry.
    pub closed spec fn wf(&self) -> bool {
        unique_keys(self.entries@)
    }

    /// An empty store whose entries live `ttl` milliseconds.
    pub fn new(ttl: u64) -> (r: EventStore)
        ensures
            forall|p: Seq<char>| r.entry(p) is None,
            r.ttl_ms() == ttl,
            r.wf(),
    {
        EventStore { entries: Vec::new(), ttl }
    }

    fn find(&self, p: &str) -> (r: Option<usize>)
        ensures
            r matches Some(i) ==> index_of(self.entries@, p@) == Some(i as int),
            r is None ==> index_of(self.entries@, p@) is None,
    {
        let key = chars_of(p);
        let mut i: usize = 0;
        while i < self.entries.len()
            invariant
                i <= self.entries@.len(),
                key@ == p@,
                forall|j: int| 0 <= j < i ==> self.entries@[j].syspath@ != p@,
            decreases self.entries@.len() - i,
        {
            if chars_eq_str(&key, self.entries[i].syspath.as_str()) {
                proof {
                    lemma_index_of_is(self.entries@, p@, i as int);
                }
                return Some(i);
            }
            i = i + 1;
        }
        proof {
            lemma_index_of_is(self.entries@, p@, i as int);
        }
        None
    }

    /// Records event `event` observed at time `now`.
    pub fn on_event(&mut self, event: UdevEvent, now: u64)
        requires
            old(self).wf(),
        ensures
            final(self).wf(),
            final(self).ttl_ms() == old(self).ttl_ms(),
            final(self).entry(event.syspath@) == Some(
                after_event(
                    old(self).entry(event.syspath@),
                    event.kind,
                    event.seqnum,
                    event.payload@,
                    now,
                ),
            ),
            forall|q: Seq<char>| q != event.syspath@ ==> final(self).entry(q) == old(self).entry(q),
    {
        let UdevEvent { syspath, seqnum, kind, payload } = event;
        match self.find(syspath.as_str()) {
            Some(i) => {
                let ghost es = self.entries@;
                proof {
                    lemma_index_of(es, syspath@);
                }
                let mut e = self.entries[i].duplicate();
                e.seqnum = seqnum;
                e.last_update = now;
                e.tombstone = false;
                match kind {
                    EventKind::Add => {
                        e.add_data = Some(payload);
                        e.add_processed = false;
                        e.remove_data = None;
                    },
                    EventKind::Remove => {
                        e.remove_data = Some(payload);
                    },
                }
                self.entries[i] = e;
                proof {
                    lemma_index_of(es, syspath@);
                    assert forall|q: Seq<char>| #[trigger] lookup(self.entries@, q) == (if q == syspath@ {
                        Some(e@)
                    } else {
                        lookup(es, q)
                    }) by {
                        lemma_lookup_update(es, i as int, e, q);
                    }
                    assert(e@ == after_event(lookup(es, syspath@), kind, seqnum, payload@, now));
                    assert(unique_keys(self.entries@)) by {
                        assert forall|a: int, b: int| 0 <= a < b < self.entries@.len() implies
                            self.entries@[a].syspath@ != self.entries@[b].syspath@ by {
                            assert(self.entries@[a].syspath@ == es[a].syspath@);
                            assert(self.entries@[b].syspath@ == es[b].syspath@);
                        }
                    }
                }
            },
            None => {
                let ghost es = self.entries@;
                proof {
                    lemma_index_of(es, syspath@);
                }
                let e = match kind {
                    EventKind::Add => Entry {
                        syspath,
                        seqnum,
                        add_data: Some(payload),
                        remove_data: None,
                        add_processed: false,
                        tombstone: false,
                        last_update: now,
                    },
                    EventKind::Remove => Entry {
                        syspath,
                        seqnum,
                        add_data: None,
                        remove_data: Some(payload),
                        add_processed: false,
                        tombstone: false,
                        last_update: now,
                    },
                };
                self.entries.push(e);
                proof {
                    assert(unique_keys(self.entries@)) by {
                        assert forall|a: int, b: int| 0 <= a < b < self.entries@.len() implies
                            self.entries@[a].syspath@ != self.entries@[b].syspath@ by {
                            assert(self.entries@[a] == es[a]);
                            if b < es.len() {
                                assert(self.entries@[b] == es[b]);
                            }
                        }
                    }
                    assert forall|q: Seq<char>| #[trigger] lookup(self.entries@, q) == (if q
                        == e.syspath@ {
                        Some(e@)
                    } else {
                        lookup(es, q)
                    }) by {
                        lemma_index_of(es, q);
                        lemma_index_of(self.entries@, q);
                        match index_of(es, q) {
                            Some(k) => lemma_index_of_is(self.entries@, q, k),
                            None => {
                                if q == e.syspath@ {
                                    lemma_index_of_is(self.entries@, q, es.len() as int);
                                } else {
                                    lemma_index_of_is(
                                        self.entries@,
                                        q,
                                        self.entries@.len() as int,
                                    );
                                }
                            },
                        }
                    }
                }
            },
        }
    }

    /// Hands out the entry for `syspath` as it was, and marks it: its add as
    /// processed and, once a remove was seen, as a tombstone. A tombstone is
    /// handed out unchanged and stays as it is.
    pub fn take(&mut self, syspath: &str) -> (r: Option<Entry>)
        requires
            old(self).wf(),
        ensures
            final(self).wf(),
            final(self).ttl_ms() == old(self).ttl_ms(),
            match r {
                Some(e) => old(self).entry(syspath@) == Some(e@) && e.syspath@ == syspath@,
                None => old(self).entry(syspath@) is None,
            },
            final(self).entry(syspath@) == match old(self).entry(syspath@) {
                Some(e) => Some(after_take(e)),
                None => None,
            },
            forall|q: Seq<char>| q != syspath@ ==> final(self).entry(q) == old(self).entry(q),
    {
        match self.find(syspath) {
            None => None,
            Some(i) => {
                let ghost es = self.entries@;
                proof {
                    lemma_index_of(es, syspath@);
                }
                let result = self.entries[i].duplicate();
                if self.entries[i].tombstone {
                    return Some(result);
                }
                let mut e = self.entries[i].duplicate();
                e.add_processed = true;
                e.tombstone = e.remove_data.is_some();
                self.entries[i] = e;
                proof {
                    assert forall|q: Seq<char>| #[trigger] lookup(self.entries@, q) == (if q == syspath@ {
                        Some(e@)
                    } else {
                        lookup(es, q)
                    }) by {
                        lemma_lookup_update(es, i as int, e, q);
                    }
                    assert(unique_keys(self.entries@)) by {
                        assert forall|a: int, b: int| 0 <= a < b < self.entries@.len() implies
                            self.entries@[a].syspath@ != self.entries@[b].syspath@ by {
                            assert(self.entries@[a].syspath@ == es[a].syspath@);
                            assert(self.entries@[b].syspath@ == es[b].syspath@);
                        }
                    }
                }
                Some(result)
            },
        }
    }

    /// Evicts every tombstone and every entry not updated within the time to
    /// live before `now`.
    pub fn cleanup(&mut self, now: u64)
        requires
            old(self).wf(),
        ensures
            final(self).wf(),
            final(self).ttl_ms() == old(self).ttl_ms(),
            forall|q: Seq<char>|
                final(self).entry(q) == match old(self).entry(q) {
                    Some(e) => if survives(e, now, old(self).ttl_ms()) {
                        Some(e)
                    } else {
                        None
                    },
                    None => None,
                },
    {
        let ghost es = self.entries@;
        let ttl = self.ttl;
        let mut kept: Vec<Entry> = Vec::new();
        let mut i: usize = 0;
        assert(es.subrange(0, 0) =~= Seq::<Entry>::empty());
        while i < self.entries.len()
            invariant
                i <= es.len(),
                self.entries@ == es,
                unique_keys(es),
                ttl == self.ttl,
                unique_keys(kept@),
                forall|a: int|
                    0 <= a < kept@.len() ==> exists|j: int|
                        0 <= j < i && #[trigger] kept@[a].syspath@ == es[j].syspath@,
                forall|q: Seq<char>|
                    #[trigger] lookup(kept@, q) == match lookup(es.subrange(0, i as int), q) {
                        Some(e) => if survives(e, now, ttl) {
                            Some(e)
                        } else {
                            None
                        },
                        None => None,
                    },
            decreases es.len() - i,
        {
            let e = &self.entries[i];
            let age = if now >= e.last_update {
                now - e.last_update
            } else {
                0
            };
            let ghost before = kept@;
            let ghost pre = es.subrange(0, i as int);
            proof {
                assert(es.subrange(0, i + 1) =~= pre.push(es[i as int]));
                lemma_index_of(pre, es[i as int].syspath@);
                assert(lookup(pre, es[i as int].syspath@) is None);
            }
            if !e.tombstone && age < ttl {
                let d = e.duplicate();
                kept.push(d);
                proof {
                    assert forall|a: int| 0 <= a < before.len() implies before[a].syspath@
                        != d.syspath@ by {
                        let j = choose|j: int| 0 <= j < i && before[a].syspath@ == es[j].syspath@;
                    }
                    assert forall|q: Seq<char>| #[trigger] lookup(kept@, q) == lookup(before.push(d), q) by {
                        assert(kept@ =~= before.push(d));
                    }
                }
            }
            proof {
                assert forall|q: Seq<char>| #[trigger] lookup(kept@, q) == match lookup(
                    es.subrange(0, i + 1),
                    q,
                ) {
                    Some(e) => if survives(e, now, ttl) {
                        Some(e)
                    } else {
                        None
                    },
                    None => None,
                } by {
                    lemma_lookup_push(pre, es[i as int], q);
                    if kept@.len() > before.len() {
                        lemma_lookup_push(before, kept@.last(), q);
                        assert(kept@ =~= before.push(kept@.last()));
                    } else {
                        assert(kept@ =~= before);
                        if q == es[i as int].syspath@ {
                            lemma_lookup_push(before, es[i as int], q);
                            lemma_index_of(before, q);
                            if lookup(before, q) is Some {
                                let k = index_of(before, q)->Some_0;
                                let j = choose|j: int| 0 <= j < i && before[k].syspath@ == es[j].syspath@;
                            }
                        }
                    }
                }
            }
            i = i + 1;
        }
        proof {
            assert(es.subrange(0, i as int) =~= es);
        }
        self.entries = kept;
    }
}

} // verus!

verus! {

/// Once a removal was seen, the next take makes the entry a tombstone, and
/// every later take hands out that tombstone and changes nothing.
pub proof fn lemma_take_after_remove(e: EntryView)
    requires
        e.remove_data is Some,
    ensures
        after_take(e).tombstone,
        after_take(after_take(e)) == after_take(e),
{
}

} // verus!

verus! {

/// The properties with `key` set to `value`: earlier values of `key` are
/// dropped and the pair is appended.
pub open spec fn with_property(ps: Seq<(Seq<char>, Seq<char>)>, key: Seq<char>, value: Seq<char>) -> Seq<
    (Seq<char>, Seq<char>),
> {
    ps.filter(|p: (Seq<char>, Seq<char>)| p.0 != key).push((key, value))
}

/// Sets property `key` to `value`.
pub fn set_property(props: &Properties, key: &str, value: &str) -> (r: Properties)
    ensures
        props_view(r@) == with_property(props_view(props@), key@, value@),
{
    let kc = chars_of(key);
    let mut out: Properties = Vec::new();
    let mut i: usize = 0;
    let ghost pv = props_view(props@);
    let ghost f = |p: (Seq<char>, Seq<char>)| p.0 != key@;
    while i < props.len()
        invariant
            i <= props@.len(),
            kc@ == key@,
            pv == props_view(props@),
            f == (|p: (Seq<char>, Seq<char>)| p.0 != key@),
            props_view(out@) == pv.subrange(0, i as int).filter(f),
        decreases props@.len() - i,
    {
        let (k, v) = &props[i];
        proof {
            assert(pv.subrange(0, i + 1).drop_last() =~= pv.subrange(0, i as int));
            assert(pv.subrange(0, i + 1).last() == (k@, v@));
            reveal(Seq::filter);
        }
        if !chars_eq_str(&kc, k.as_str()) {
            let ghost before = out@;
            out.push((k.clone(), v.clone()));
            assert(props_view(out@) =~= props_view(before).push((k@, v@)));
        }
        i = i + 1;
    }
    assert(pv.subrange(0, i as int) =~= pv);
    proof {
        reveal(Seq::filter);
        assert(pv.subrange(0, 0) =~= Seq::<(Seq<char>, Seq<char>)>::empty());
    }
    let ghost before = out@;
    out.push((String::from_str(key), String::from_str(value)));
    assert(props_view(out@) =~= props_view(before).push((key@, value@)));
    out
}

} // verus!
