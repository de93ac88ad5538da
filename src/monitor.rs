//! The udev monitor's decisions: which host uevents concern synthetic input
//! devices, how their properties are rewritten for a container, and when the
//! store is swept.

use vstd::prelude::*;
use crate::event_store::{props_view, set_property, with_property, EventKind, Properties, UdevEvent};
use crate::text::{
    all_digits, chars_eq_str, chars_of, decimal, digits_value, is_digit, occurs_at_exec, parse_u64,
    push_decimal, push_str, starts_with, string_of,
};

verus! {

/// The background job that feeds the udev event store.
#[derive(Debug)]
pub struct MonitorBackgroundLoop {}

impl MonitorBackgroundLoop {
    pub fn new() -> (r: MonitorBackgroundLoop) {
        MonitorBackgroundLoop {  }
    }
}

/// Interval between two sweeps of the store, in milliseconds.
pub const CLEANUP_INTERVAL_MS: u64 = 60_000;

/// Time to live of store entries, in milliseconds.
pub const STORE_TTL_MS: u64 = 60_000;

/// When the monitor loop sweeps the store next.
#[derive(Clone, Copy, Debug, PartialEq, Eq, Structural)]
pub struct CleanupSchedule {
    pub next: u64,
}

impl CleanupSchedule {
    /// The first sweep comes one interval after `now`.
    pub fn starting_at(now: u64) -> (r: CleanupSchedule)
        ensures
            r.next == (if now <= u64::MAX - CLEANUP_INTERVAL_MS {
                now + CLEANUP_INTERVAL_MS
            } else {
                u64::MAX as int
            }),
    {
        CleanupSchedule { next: now.saturating_add(CLEANUP_INTERVAL_MS) }
    }

    /// Whether a sweep is due at `now`; if so, the next one is planned one
    /// interval later.
    pub fn due(&mut self, now: u64) -> (r: bool)
        ensures
            r == (now > old(self).next),
            r ==> final(self).next == (if now <= u64::MAX - CLEANUP_INTERVAL_MS {
                now + CLEANUP_INTERVAL_MS
            } else {
                u64::MAX as int
            }),
            !r ==> *final(self) == *old(self),
    {
        if now > self.next {
            self.next = now.saturating_add(CLEANUP_INTERVAL_MS);
            true
        } else {
            false
        }
    }
}

/// `ID_VUINPUT_`
pub open spec fn vuinput_prefix() -> Seq<char> {
    seq!['I', 'D', '_', 'V', 'U', 'I', 'N', 'P', 'U', 'T', '_']
}

/// `ID_INPUT_`
pub open spec fn input_prefix() -> Seq<char> {
    seq!['I', 'D', '_', 'I', 'N', 'P', 'U', 'T', '_']
}

/// The key a container sees for a host property key: the daemon's own
/// `ID_VUINPUT_*` markers become the standard `ID_INPUT_*` ones.
pub open spec fn renamed_key(k: Seq<char>) -> Seq<char> {
    if starts_with(k, vuinput_prefix()) {
        input_prefix() + k.subrange(vuinput_prefix().len() as int, k.len() as int)
    } else {
        k
    }
}

/// Renames one property key.
pub fn rename_key(k: &str) -> (r: String)
    ensures
        r@ == renamed_key(k@),
{
    let kc = chars_of(k);
    let vp = chars_of("ID_VUINPUT_");
    proof {
        reveal_strlit("ID_VUINPUT_");
        assert(vp@ =~= vuinput_prefix());
    }
    if occurs_at_exec(&kc, &vp, 0) {
        let mut out: Vec<char> = Vec::new();
        push_str(&mut out, "ID_INPUT_");
        proof {
            reveal_strlit("ID_INPUT_");
            assert(out@ =~= input_prefix());
        }
        let mut i: usize = vp.len();
        let ghost start = out@;
        while i < kc.len()
            invariant
                vp@.len() <= i <= kc@.len(),
                vp@ == vuinput_prefix(),
                start == input_prefix(),
                out@ == start + kc@.subrange(vp@.len() as int, i as int),
            decreases kc@.len() - i,
        {
            out.push(kc[i]);
            i = i + 1;
            assert(out@ =~= start + kc@.subrange(vp@.len() as int, i as int));
        }
        string_of(&out)
    } else {
        string_of(&kc)
    }
}

/// The properties a container sees: keys renamed, the seat dropped, and a
/// later value of a key replacing an earlier one.
pub open spec fn harvested(ps: Seq<(Seq<char>, Seq<char>)>) -> Seq<(Seq<char>, Seq<char>)>
    decreases ps.len(),
{
    if ps.len() == 0 {
        Seq::empty()
    } else {
        let prev = harvested(ps.drop_last());
        let (k, v) = ps.last();
        if renamed_key(k) == "ID_SEAT"@ {
            prev
        } else {
            with_property(prev, renamed_key(k), v)
        }
    }
}

/// Rewrites the properties of a host uevent for a container.
pub fn harvest_properties(raw: &Properties) -> (r: Properties)
    ensures
        props_view(r@) == harvested(props_view(raw@)),
{
    let mut out: Properties = Vec::new();
    let mut i: usize = 0;
    while i < raw.len()
        invariant
            i <= raw@.len(),
            props_view(out@) == harvested(props_view(raw@).subrange(0, i as int)),
        decreases raw@.len() - i,
    {
        let (k, v) = &raw[i];
        let key = rename_key(k.as_str());
        proof {
            let pv = props_view(raw@);
            assert(pv.subrange(0, i + 1).drop_last() =~= pv.subrange(0, i as int));
            assert(pv.subrange(0, i + 1).last() == (k@, v@));
        }
        let keyc = chars_of(key.as_str());
        if !chars_eq_str(&keyc, "ID_SEAT") {
            out = set_property(&out, key.as_str(), v.as_str());
        }
        i = i + 1;
    }
    assert(props_view(raw@).subrange(0, i as int) =~= props_view(raw@));
    out
}

/// The value of the first property called `key`.
pub open spec fn prop_value(ps: Seq<(Seq<char>, Seq<char>)>, key: Seq<char>) -> Option<Seq<char>>
    decreases ps.len(),
{
    if ps.len() == 0 {
        None
    } else if ps[0].0 == key {
        Some(ps[0].1)
    } else {
        prop_value(ps.drop_first(), key)
    }
}

/// The value of the first property called `key`.
pub fn get_property<'a>(props: &'a Properties, key: &str) -> (r: Option<&'a String>)
    ensures
        match r {
            Some(v) => prop_value(props_view(props@), key@) == Some(v@),
            None => prop_value(props_view(props@), key@) is None,
        },
{
    let kc = chars_of(key);
    let mut i: usize = 0;
    assert(props_view(props@).subrange(0, props@.len() as int) =~= props_view(props@));
    while i < props.len()
        invariant
            i <= props@.len(),
            kc@ == key@,
            prop_value(props_view(props@).subrange(i as int, props@.len() as int), key@)
                == prop_value(props_view(props@), key@),
        decreases props@.len() - i,
    {
        let (k, v) = &props[i];
        let ghost rest = props_view(props@).subrange(i as int, props@.len() as int);
        proof {
            assert(rest[0] == (k@, v@));
            assert(rest.drop_first() =~= props_view(props@).subrange(i + 1, props@.len() as int));
        }
        if chars_eq_str(&kc, k.as_str()) {
            return Some(v);
        }
        i = i + 1;
    }
    None
}

pub open spec fn devpath_prefix() -> Seq<char> {
    "/devices/virtual/input/input"@
}

pub open spec fn event_infix() -> Seq<char> {
    "/event"@
}

pub open spec fn syspath_prefix() -> Seq<char> {
    "/sys/devices/virtual/input/input"@
}

/// Whether `devpath` is `/devices/virtual/input/input<d>/event<e>` for the
/// digit runs `d` and some `e`.
pub open spec fn devpath_matches(devpath: Seq<char>, d: Seq<char>) -> bool {
    all_digits(d) && exists|e: Seq<char>|
        all_digits(e) && devpath == devpath_prefix() + d + event_infix() + e
}

/// Relies on regex::Regex::new and Regex::captures with the pattern
/// `^/devices/virtual/input/input([0-9]+)/event([0-9]+)$` (a valid pattern,
/// so it compiles): on a match, the first group is returned.
#[verifier::external_body]
fn devpath_input_digits(devpath: &str) -> (r: Option<String>)
    ensures
        match r {
            Some(d) => devpath_matches(devpath@, d@),
            None => forall|d: Seq<char>| !devpath_matches(devpath@, d),
        },
{
    let re = regex::Regex::new(r"^/devices/virtual/input/input([0-9]+)/event([0-9]+)$").ok()?;
    re.captures(devpath).and_then(|c| c.get(1)).map(|m| m.as_str().to_string())
}

/// The input number of a matching devpath is determined by it.
proof fn lemma_devpath_digits_unique(devpath: Seq<char>, d1: Seq<char>, d2: Seq<char>)
    requires
        devpath_matches(devpath, d1),
        devpath_matches(devpath, d2),
    ensures
        d1 == d2,
{
    reveal_strlit("/devices/virtual/input/input");
    reveal_strlit("/event");
    let e1 = choose|e: Seq<char>|
        all_digits(e) && devpath == devpath_prefix() + d1 + event_infix() + e;
    let e2 = choose|e: Seq<char>|
        all_digits(e) && devpath == devpath_prefix() + d2 + event_infix() + e;
    let n = devpath_prefix().len();
    if d1.len() < d2.len() {
        assert(devpath[(n + d1.len()) as int] == '/');
        assert(devpath[(n + d1.len()) as int] == d2[d1.len() as int]);
        assert(is_digit(d2[d1.len() as int]));
    } else if d2.len() < d1.len() {
        assert(devpath[(n + d2.len()) as int] == '/');
        assert(devpath[(n + d2.len()) as int] == d1[d2.len() as int]);
        assert(is_digit(d1[d2.len() as int]));
    } else {
        assert forall|i: int| 0 <= i < d1.len() implies d1[i] == d2[i] by {
            assert(devpath[n + i] == d1[i]);
            assert(devpath[n + i] == d2[i]);
        }
        assert(d1 =~= d2);
    }
}

/// The syspath of the device that a devpath names, if it names an event
/// node of a virtual input device.
pub open spec fn syspath_of(devpath: Seq<char>) -> Option<Seq<char>> {
    if exists|d: Seq<char>| devpath_matches(devpath, d) && digits_value(d) <= u64::MAX {
        let d = choose|d: Seq<char>| devpath_matches(devpath, d) && digits_value(d) <= u64::MAX;
        Some(syspath_prefix() + decimal(digits_value(d)))
    } else {
        None
    }
}

/// The canonical syspath `/sys/devices/virtual/input/input<N>` for a devpath
/// `/devices/virtual/input/input<N>/event<M>`.
pub fn syspath_of_devpath(devpath: &str) -> (r: Option<String>)
    ensures
        match r {
            Some(s) => syspath_of(devpath@) == Some(s@),
            None => syspath_of(devpath@) is None,
        },
{
    match devpath_input_digits(devpath) {
        None => None,
        Some(d) => {
            let dc = chars_of(d.as_str());
            proof {
                assert forall|d2: Seq<char>| devpath_matches(devpath@, d2) implies d2 == d@ by {
                    lemma_devpath_digits_unique(devpath@, d2, d@);
                }
            }
            match parse_u64(dc.as_slice()) {
                None => None,
                Some(n) => {
                    let mut out: Vec<char> = Vec::new();
                    push_str(&mut out, "/sys/devices/virtual/input/input");
                    push_decimal(&mut out, n);
                    Some(string_of(&out))
                },
            }
        },
    }
}

/// The kind of a uevent from its `ACTION` property: `remove` is a removal,
/// anything else an addition.
pub open spec fn kind_of(action: Seq<char>) -> EventKind {
    if action == "remove"@ {
        EventKind::Remove
    } else {
        EventKind::Add
    }
}

/// The store event for the properties of a host uevent: its properties
/// rewritten for a container, `None` unless `DEVPATH` names an event node of
/// a virtual input device and `SEQNUM` is a number.
pub open spec fn event_of(raw: Seq<(Seq<char>, Seq<char>)>) -> Option<(Seq<char>, u64, EventKind)> {
    let h = harvested(raw);
    match (prop_value(h, "DEVPATH"@), prop_value(h, "SEQNUM"@)) {
        (Some(devpath), Some(seq)) => match syspath_of(devpath) {
            Some(syspath) => if all_digits(seq) && digits_value(seq) <= u64::MAX {
                Some(
                    (
                        syspath,
                        digits_value(seq) as u64,
                        match prop_value(h, "ACTION"@) {
                            Some(a) => kind_of(a),
                            None => EventKind::Add,
                        },
                    ),
                )
            } else {
                None
            },
            None => None,
        },
        _ => None,
    }
}

/// Turns the properties of a host uevent into a store event.
pub fn udev_event_from_properties(raw: &Properties) -> (r: Option<UdevEvent>)
    ensures
        match r {
            Some(ev) => event_of(props_view(raw@)) == Some((ev.syspath@, ev.seqnum, ev.kind))
                && props_view(ev.payload@) == harvested(props_view(raw@)),
            None => event_of(props_view(raw@)) is None,
        },
{
    let props = harvest_properties(raw);
    let devpath = match get_property(&props, "DEVPATH") {
        Some(d) => d,
        None => {
            return None;
        },
    };
    let seq = match get_property(&props, "SEQNUM") {
        Some(s) => s,
        None => {
            return None;
        },
    };
    let syspath = match syspath_of_devpath(devpath.as_str()) {
        Some(s) => s,
        None => {
            return None;
        },
    };
    let sc = chars_of(seq.as_str());
    let seqnum = match parse_u64(sc.as_slice()) {
        Some(n) => n,
        None => {
            return None;
        },
    };
    let kind = match get_property(&props, "ACTION") {
        Some(a) => {
            let ac = chars_of(a.as_str());
            if chars_eq_str(&ac, "remove") {
                EventKind::Remove
            } else {
                EventKind::Add
            }
        },
        None => EventKind::Add,
    };
    Some(UdevEvent { syspath, seqnum, kind, payload: props })
}

} // verus!
