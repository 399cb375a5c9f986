//! Hotplug: snapshots of the visible devices keyed by a stable identity,
//! and the connect / disconnect events that turn one snapshot into the next.
use vstd::prelude::*;

use crate::keyorder::{
    lemma_str_lt_asymmetric, lemma_str_lt_irreflexive, lemma_str_lt_total, lemma_str_lt_transitive,
    str_less, str_lt,
};
use crate::channel::EventSender;
use crate::types::{spec_index_text, ApiBackend, CameraInfo, NokhwaError};

verus! {

/// A device appeared or disappeared.
#[derive(Clone, Debug)]
pub enum HotplugEvent {
    Connected(CameraInfo),
    Disconnected(CameraInfo),
}

impl HotplugEvent {
    /// A copy of this event.
    pub fn duplicate(&self) -> (r: HotplugEvent)
        ensures
            r == *self,
    {
        match self {
            HotplugEvent::Connected(i) => HotplugEvent::Connected(i.duplicate()),
            HotplugEvent::Disconnected(i) => HotplugEvent::Disconnected(i.duplicate()),
        }
    }
}

/// One visible device and the identity it is tracked by.
#[derive(Clone, Debug)]
pub struct SnapshotEntry {
    pub key: String,
    pub info: CameraInfo,
}

/// Keys strictly increase along `s`.
pub open spec fn keys_sorted(s: Seq<SnapshotEntry>) -> bool {
    forall|i: int, j: int| 0 <= i < j < s.len() ==> str_lt(#[trigger] s[i].key@, #[trigger] s[j].key@)
}

/// Some entry of `s` has key `k`.
pub open spec fn has_key(s: Seq<SnapshotEntry>, k: Seq<char>) -> bool {
    exists|i: int| 0 <= i < s.len() && (#[trigger] s[i]).key@ == k
}

/// The key -> device map that a list of entries builds when inserted in
/// order, a later entry replacing an earlier one with the same key.
pub open spec fn entries_map(s: Seq<SnapshotEntry>) -> Map<Seq<char>, CameraInfo>
    decreases s.len(),
{
    if s.len() == 0 {
        Map::empty()
    } else {
        entries_map(s.drop_last()).insert(s.last().key@, s.last().info)
    }
}

/// The devices of a snapshot that are absent from `other`, in `s` order,
/// each wrapped by `connected` as a `Connected` (or else `Disconnected`) event.
pub open spec fn changes(s: Seq<SnapshotEntry>, other: Seq<SnapshotEntry>, connected: bool) -> Seq<
    HotplugEvent,
>
    decreases s.len(),
{
    if s.len() == 0 {
        Seq::empty()
    } else {
        changes(s.drop_last(), other, connected) + if has_key(other, s.last().key@) {
            Seq::empty()
        } else if connected {
            seq![HotplugEvent::Connected(s.last().info)]
        } else {
            seq![HotplugEvent::Disconnected(s.last().info)]
        }
    }
}

/// The events that turn `previous` into `current`: a `Connected` for every
/// device of `current` whose key `previous` lacks, in key order, then a
/// `Disconnected` for every device of `previous` whose key `current` lacks,
/// in key order. Arrivals precede removals so a quick re-plug reads as
/// removal-then-arrival to no consumer.
pub open spec fn spec_hotplug_events(previous: Seq<SnapshotEntry>, current: Seq<SnapshotEntry>) -> Seq<
    HotplugEvent,
> {
    changes(current, previous, true) + changes(previous, current, false)
}

/// Devices visible at one moment, kept in ascending key order with no key
/// twice.
pub struct DeviceSnapshot {
    entries: Vec<SnapshotEntry>,
}

impl View for DeviceSnapshot {
    type V = Seq<SnapshotEntry>;

    closed spec fn view(&self) -> Seq<SnapshotEntry> {
        self.entries@
    }
}

impl DeviceSnapshot {
    #[verifier::type_invariant]
    spec fn inv(self) -> bool {
        keys_sorted(self.entries@)
    }

    pub fn new() -> (s: DeviceSnapshot)
        ensures
            s@ == Seq::<SnapshotEntry>::empty(),
    {
        DeviceSnapshot { entries: Vec::new() }
    }

    /// The number of devices; the entries are in strictly ascending key order.
    pub fn len(&self) -> (n: usize)
        ensures
            n == self@.len(),
            keys_sorted(self@),
    {
        proof {
            use_type_invariant(self);
        }
        self.entries.len()
    }

    /// The entry at position `i`, in key order.
    pub fn entry(&self, i: usize) -> (e: &SnapshotEntry)
        requires
            i < self@.len(),
        ensures
            *e == self@[i as int],
    {
        &self.entries[i]
    }

    /// Whether some device has key `key`.
    pub fn contains_key(&self, key: &str) -> (r: bool)
        ensures
            r == has_key(self@, key@),
    {
        let mut i: usize = 0;
        while i < self.entries.len()
            invariant
                i <= self.entries@.len(),
                forall|k: int| 0 <= k < i ==> (#[trigger] self.entries@[k]).key@ != key@,
            decreases self.entries@.len() - i,
        {
            if self.entries[i].key.as_str().unicode_len() == key.unicode_len() && !str_less(
                self.entries[i].key.as_str(),
                key,
            ) && !str_less(key, self.entries[i].key.as_str()) {
                proof {
                    lemma_str_lt_total(self.entries@[i as int].key@, key@);
                    assert(self.entries@[i as int].key@ == key@);
                }
                return true;
            }
            proof {
                if self.entries@[i as int].key@ == key@ {
                    lemma_str_lt_irreflexive(key@);
                }
            }
            i = i + 1;
        }
        false
    }

    /// Add a device, replacing the one already tracked under the same key.
    pub fn insert(&mut self, e: SnapshotEntry)
        ensures
            entries_map(final(self)@) == entries_map(old(self)@).insert(e.key@, e.info),
            forall|k: Seq<char>|
                #![trigger has_key(final(self)@, k)]
                has_key(final(self)@, k) <==> has_key(old(self)@, k) || k == e.key@,
    {
        proof {
            use_type_invariant(&*self);
        }
        let mut v: Vec<SnapshotEntry> = Vec::new();
        std::mem::swap(&mut v, &mut self.entries);
        let ghost before = v@;
        proof {
            lemma_entries_map_sorted(before);
        }
        let mut i: usize = 0;
        while i < v.len() && str_less(v[i].key.as_str(), e.key.as_str())
            invariant
                i <= v.len(),
                v@ == before,
                keys_sorted(v@),
                forall|k: int| 0 <= k < i ==> str_lt((#[trigger] v@[k]).key@, e.key@),
            decreases v.len() - i,
        {
            i = i + 1;
        }
        if i < v.len() && !str_less(e.key.as_str(), v[i].key.as_str()) {
            // same key: replace in place
            proof {
                lemma_str_lt_total(v@[i as int].key@, e.key@);
            }
            let ghost old_entry = v@[i as int];
            v.set(i, e);
            proof {
                assert(keys_sorted(v@)) by {
                    assert forall|a: int, b: int| 0 <= a < b < v@.len() implies str_lt(
                        #[trigger] v@[a].key@,
                        #[trigger] v@[b].key@,
                    ) by {
                        assert(before[a].key@ == v@[a].key@ || a == i);
                        assert(before[b].key@ == v@[b].key@ || b == i);
                        assert(str_lt(before[a].key@, before[b].key@));
                    }
                }
                lemma_entries_map_sorted(v@);
                assert(entries_map(v@) =~= entries_map(before).insert(e.key@, e.info)) by {
                    assert forall|k: Seq<char>| #[trigger]
                        entries_map(v@).contains_key(k) <==> entries_map(before).insert(
                            e.key@,
                            e.info,
                        ).contains_key(k) by {
                        if has_key(before, k) {
                            let a = choose|a: int| 0 <= a < before.len() && before[a].key@ == k;
                            if a == i {
                                assert(v@[i as int].key@ == k);
                            } else {
                                assert(v@[a].key@ == k);
                            }
                        }
                        if has_key(v@, k) {
                            let a = choose|a: int| 0 <= a < v@.len() && v@[a].key@ == k;
                            if a != i {
                                assert(before[a].key@ == k);
                            }
                        }
                    }
                    assert forall|k: Seq<char>| #[trigger]
                        entries_map(v@).contains_key(k) implies entries_map(v@)[k]
                        == entries_map(before).insert(e.key@, e.info)[k] by {
                        let a = choose|a: int| 0 <= a < v@.len() && v@[a].key@ == k;
                        if a != i {
                            assert(before[a].key@ == k);
                            if k == e.key@ {
                                lemma_unique_position(v@, a, i as int);
                            }
                        }
                    }
                }
            }
            self.entries = v;
            return;
        }
        proof {
            assert forall|k: int| i <= k < before.len() implies str_lt(
                e.key@,
                (#[trigger] before[k]).key@,
            ) by {
                if i < before.len() {
                    lemma_str_lt_total(before[i as int].key@, e.key@);
                    lemma_str_lt_asymmetric(before[i as int].key@, e.key@);
                }
                if k > i {
                    lemma_str_lt_transitive(e.key@, before[i as int].key@, before[k].key@);
                }
            }
            assert forall|k: int| 0 <= k < before.len() implies (#[trigger] before[k]).key@
                != e.key@ by {
                if k < i {
                    lemma_str_lt_irreflexive(e.key@);
                } else {
                    lemma_str_lt_irreflexive(e.key@);
                }
            }
        }
        v.insert(i, e);
        proof {
            assert(keys_sorted(v@)) by {
                assert forall|a: int, b: int| 0 <= a < b < v@.len() implies str_lt(
                    #[trigger] v@[a].key@,
                    #[trigger] v@[b].key@,
                ) by {
                    if a < i && b == i {
                    } else if a < i && b > i {
                        assert(v@[b] == before[b - 1]);
                    } else if a == i {
                        assert(v@[b] == before[b - 1]);
                    } else if a > i {
                        assert(v@[a] == before[a - 1]);
                        assert(v@[b] == before[b - 1]);
                    }
                }
            }
            lemma_entries_map_sorted(v@);
            assert(entries_map(v@) =~= entries_map(before).insert(e.key@, e.info)) by {
                assert forall|k: Seq<char>| #[trigger]
                    entries_map(v@).contains_key(k) <==> entries_map(before).insert(
                        e.key@,
                        e.info,
                    ).contains_key(k) by {
                    if has_key(before, k) {
                        let a = choose|a: int| 0 <= a < before.len() && before[a].key@ == k;
                        if a < i {
                            assert(v@[a].key@ == k);
                        } else {
                            assert(v@[a + 1].key@ == k);
                        }
                    }
                    if k == e.key@ {
                        assert(v@[i as int].key@ == k);
                    }
                    if has_key(v@, k) {
                        let a = choose|a: int| 0 <= a < v@.len() && v@[a].key@ == k;
                        if a < i {
                            assert(before[a].key@ == k);
                        } else if a > i {
                            assert(before[a - 1].key@ == k);
                        }
                    }
                }
                assert forall|k: Seq<char>| #[trigger]
                    entries_map(v@).contains_key(k) implies entries_map(v@)[k] == entries_map(
                    before,
                ).insert(e.key@, e.info)[k] by {
                    let a = choose|a: int| 0 <= a < v@.len() && v@[a].key@ == k;
                    if a < i {
                        assert(before[a].key@ == k);
                    } else if a > i {
                        assert(before[a - 1].key@ == k);
                    }
                }
            }
        }
        self.entries = v;
    }

    /// Build a snapshot from enumerated devices, as collecting them into a
    /// map does: a later device replaces an earlier one with the same key.
    pub fn from_entries(entries: Vec<SnapshotEntry>) -> (s: DeviceSnapshot)
        ensures
            entries_map(s@) == entries_map(entries@),
    {
        let mut s = DeviceSnapshot::new();
        let mut i: usize = 0;
        while i < entries.len()
            invariant
                i <= entries.len(),
                entries_map(s@) == entries_map(entries@.take(i as int)),
            decreases entries.len() - i,
        {
            let e = entries[i].clone_entry();
            s.insert(e);
            proof {
                assert(entries@.take(i + 1).drop_last() =~= entries@.take(i as int));
            }
            i = i + 1;
        }
        assert(entries@.take(entries.len() as int) =~= entries@);
        s
    }
}

impl SnapshotEntry {
    /// A copy of this entry.
    pub fn clone_entry(&self) -> (r: SnapshotEntry)
        ensures
            r == *self,
    {
        SnapshotEntry { key: self.key.clone(), info: self.info.duplicate() }
    }
}

/// Two positions of a sorted list with the same key are the same position.
proof fn lemma_unique_position(s: Seq<SnapshotEntry>, a: int, b: int)
    requires
        keys_sorted(s),
        0 <= a < s.len(),
        0 <= b < s.len(),
        s[a].key@ == s[b].key@,
    ensures
        a == b,
{
    if a < b {
        lemma_str_lt_irreflexive(s[a].key@);
    } else if b < a {
        lemma_str_lt_irreflexive(s[a].key@);
    }
}

/// For a sorted list the map holds exactly its keys, each with the device
/// at that key's position.
proof fn lemma_entries_map_sorted(s: Seq<SnapshotEntry>)
    requires
        keys_sorted(s),
    ensures
        forall|k: Seq<char>|
            #![trigger entries_map(s).contains_key(k)]
            #![trigger has_key(s, k)]
            entries_map(s).contains_key(k) <==> has_key(s, k),
        forall|a: int| 0 <= a < s.len() ==> entries_map(s)[(#[trigger] s[a]).key@] == s[a].info,
    decreases s.len(),
{
    if s.len() > 0 {
        let t = s.drop_last();
        assert(keys_sorted(t));
        lemma_entries_map_sorted(t);
        assert forall|k: Seq<char>| #[trigger] entries_map(s).contains_key(k) <==> has_key(s, k) by {
            if has_key(t, k) {
                let a = choose|a: int| 0 <= a < t.len() && t[a].key@ == k;
                assert(s[a].key@ == k);
            }
            if has_key(s, k) {
                let a = choose|a: int| 0 <= a < s.len() && s[a].key@ == k;
                if a < s.len() - 1 {
                    assert(t[a].key@ == k);
                }
            }
        }
        assert forall|a: int| 0 <= a < s.len() implies entries_map(s)[(#[trigger] s[a]).key@]
            == s[a].info by {
            if a < s.len() - 1 {
                assert(t[a] == s[a]);
                if s[a].key@ == s.last().key@ {
                    lemma_unique_position(s, a, s.len() - 1);
                }
            }
        }
    }
}


/// What `changes` adds for the entry at position `i` of `s`.
pub open spec fn change_of(e: SnapshotEntry, other: Seq<SnapshotEntry>, connected: bool) -> Seq<
    HotplugEvent,
> {
    if has_key(other, e.key@) {
        Seq::empty()
    } else if connected {
        seq![HotplugEvent::Connected(e.info)]
    } else {
        seq![HotplugEvent::Disconnected(e.info)]
    }
}

proof fn lemma_changes_step(s: Seq<SnapshotEntry>, other: Seq<SnapshotEntry>, connected: bool, i: int)
    requires
        0 <= i < s.len(),
    ensures
        changes(s.take(i + 1), other, connected) == changes(s.take(i), other, connected)
            + change_of(s[i], other, connected),
{
    assert(s.take(i + 1).drop_last() =~= s.take(i));
}

/// The connect / disconnect events that turn `previous` into `current`.
pub fn hotplug_events(previous: &DeviceSnapshot, current: &DeviceSnapshot) -> (ev: Vec<
    HotplugEvent,
>)
    ensures
        ev@ == spec_hotplug_events(previous@, current@),
{
    let mut ev: Vec<HotplugEvent> = Vec::new();
    let n = current.len();
    let mut i: usize = 0;
    while i < n
        invariant
            i <= n,
            n == current@.len(),
            ev@ == changes(current@.take(i as int), previous@, true),
        decreases n - i,
    {
        let e = current.entry(i);
        if !previous.contains_key(e.key.as_str()) {
            ev.push(HotplugEvent::Connected(e.info.duplicate()));
        }
        proof {
            lemma_changes_step(current@, previous@, true, i as int);
        }
        i = i + 1;
    }
    assert(current@.take(n as int) =~= current@);
    let ghost arrivals = ev@;
    let m = previous.len();
    let mut j: usize = 0;
    while j < m
        invariant
            j <= m,
            m == previous@.len(),
            arrivals == changes(current@, previous@, true),
            ev@ == arrivals + changes(previous@.take(j as int), current@, false),
        decreases m - j,
    {
        let e = previous.entry(j);
        if !current.contains_key(e.key.as_str()) {
            ev.push(HotplugEvent::Disconnected(e.info.duplicate()));
        }
        proof {
            lemma_changes_step(previous@, current@, false, j as int);
        }
        j = j + 1;
    }
    assert(previous@.take(m as int) =~= previous@);
    ev
}

/// Diff `current` against the cached `previous`, send the events of
/// `hotplug_events` in order, then replace the cache with `current`.
/// Returns false, leaving the cache as it was, as soon as the channel
/// refuses an event (its receiver is gone), so a worker can stop; the
/// events before the refused one were delivered. With nothing to send the
/// channel is never asked, so the cache is always replaced.
pub fn reconcile_and_emit_with(
    sender: &mut EventSender,
    previous: &mut DeviceSnapshot,
    current: DeviceSnapshot,
) -> (alive: bool)
    ensures
        alive ==> final(previous)@ == current@ && final(sender).delivered() == old(
            sender,
        ).delivered() + spec_hotplug_events(old(previous)@, current@) && final(sender).refused()
            == old(sender).refused(),
        !alive ==> {
            let events = spec_hotplug_events(old(previous)@, current@);
            let n = final(sender).delivered().len() - old(sender).delivered().len();
            &&& final(previous)@ == old(previous)@
            &&& final(sender).refused()
            &&& 0 <= n < events.len()
            &&& final(sender).delivered() == old(sender).delivered() + events.take(n)
        },
        spec_hotplug_events(old(previous)@, current@).len() == 0 ==> alive,
        old(sender).refused() && spec_hotplug_events(old(previous)@, current@).len() > 0 ==> !alive,
{
    let events = hotplug_events(previous, &current);
    let mut i: usize = 0;
    while i < events.len()
        invariant
            i <= events@.len(),
            *previous == *old(previous),
            events@ == spec_hotplug_events(old(previous)@, current@),
            sender.delivered() == old(sender).delivered() + events@.take(i as int),
            sender.refused() == old(sender).refused(),
            i > 0 ==> !old(sender).refused(),
        decreases events@.len() - i,
    {
        let e = events[i].duplicate();
        if !sender.send(e) {
            return false;
        }
        assert(events@.take(i + 1) =~= events@.take(i as int).push(events@[i as int]));
        i = i + 1;
    }
    assert(events@.take(events@.len() as int) =~= events@);
    *previous = current;
    true
}

/// The key -> device map of an enumeration keyed by `key_of`, a later
/// device replacing an earlier one with the same key.
pub open spec fn keyed_map(list: Seq<CameraInfo>, by_misc: bool) -> Map<Seq<char>, CameraInfo>
    decreases list.len(),
{
    if list.len() == 0 {
        Map::empty()
    } else {
        keyed_map(list.drop_last(), by_misc).insert(key_of(list.last(), by_misc), list.last())
    }
}

/// The identity a device is tracked by: the text of its index (V4L2,
/// where it names `/dev/videoN`), or its `misc` field (AVFoundation, where
/// it holds the stable unique id).
pub open spec fn key_of(info: CameraInfo, by_misc: bool) -> Seq<char> {
    if by_misc {
        info.misc@
    } else {
        spec_index_text(info.index)
    }
}

/// The snapshot of one enumeration pass. A failed enumeration gives an
/// empty snapshot: the next pass re-announces every device, which is noisy
/// but keeps the worker alive.
pub fn snapshot_of(found: Result<Vec<CameraInfo>, NokhwaError>, by_misc: bool) -> (s:
    DeviceSnapshot)
    ensures
        entries_map(s@) == match found {
            Ok(list) => keyed_map(list@, by_misc),
            Err(_) => Map::<Seq<char>, CameraInfo>::empty(),
        },
{
    let mut s = DeviceSnapshot::new();
    match found {
        Ok(list) => {
            let mut i: usize = 0;
            while i < list.len()
                invariant
                    i <= list@.len(),
                    entries_map(s@) == keyed_map(list@.take(i as int), by_misc),
                decreases list@.len() - i,
            {
                let info = &list[i];
                let key = if by_misc {
                    info.misc.clone()
                } else {
                    info.index.text()
                };
                s.insert(SnapshotEntry { key, info: info.duplicate() });
                proof {
                    assert(list@.take(i + 1).drop_last() =~= list@.take(i as int));
                }
                i = i + 1;
            }
            assert(list@.take(list@.len() as int) =~= list@);
            s
        },
        Err(_) => s,
    }
}


/// The event announcing `info`: `Connected` when `connected`, else
/// `Disconnected`.
pub open spec fn event_of(info: CameraInfo, connected: bool) -> HotplugEvent {
    if connected {
        HotplugEvent::Connected(info)
    } else {
        HotplugEvent::Disconnected(info)
    }
}

proof fn lemma_changes_members(s: Seq<SnapshotEntry>, other: Seq<SnapshotEntry>, connected: bool)
    ensures
        forall|k: int|
            0 <= k < changes(s, other, connected).len() ==> exists|i: int|
                0 <= i < s.len() && !has_key(other, s[i].key@) && #[trigger] changes(
                    s,
                    other,
                    connected,
                )[k] == event_of(s[i].info, connected),
        forall|i: int|
            0 <= i < s.len() && !has_key(other, (#[trigger] s[i]).key@) ==> changes(
                s,
                other,
                connected,
            ).contains(event_of(s[i].info, connected)),
    decreases s.len(),
{
    if s.len() > 0 {
        let t = s.drop_last();
        lemma_changes_members(t, other, connected);
        let c = changes(s, other, connected);
        let ct = changes(t, other, connected);
        assert forall|k: int| 0 <= k < c.len() implies exists|i: int|
            0 <= i < s.len() && !has_key(other, s[i].key@) && #[trigger] c[k] == event_of(
                s[i].info,
                connected,
            ) by {
            if k < ct.len() {
                let i = choose|i: int|
                    0 <= i < t.len() && !has_key(other, t[i].key@) && ct[k] == event_of(
                        t[i].info,
                        connected,
                    );
                assert(c[k] == ct[k]);
                assert(s[i] == t[i]);
            } else {
                assert(c[k] == event_of(s.last().info, connected));
                assert(s[s.len() - 1] == s.last());
            }
        }
        assert forall|i: int|
            0 <= i < s.len() && !has_key(other, (#[trigger] s[i]).key@) implies c.contains(
            event_of(s[i].info, connected),
        ) by {
            if i < t.len() {
                assert(t[i] == s[i]);
                let k = choose|k: int| 0 <= k < ct.len() && ct[k] == event_of(t[i].info, connected);
                assert(c[k] == ct[k]);
            } else {
                assert(c[ct.len() as int] == event_of(s[i].info, connected));
            }
        }
    }
}

proof fn lemma_changes_present(s: Seq<SnapshotEntry>, other: Seq<SnapshotEntry>, connected: bool)
    requires
        forall|i: int| 0 <= i < s.len() ==> has_key(other, (#[trigger] s[i]).key@),
    ensures
        changes(s, other, connected) == Seq::<HotplugEvent>::empty(),
    decreases s.len(),
{
    if s.len() > 0 {
        let t = s.drop_last();
        assert forall|i: int| 0 <= i < t.len() implies has_key(other, (#[trigger] t[i]).key@) by {
            assert(t[i] == s[i]);
        }
        lemma_changes_present(t, other, connected);
        assert(has_key(other, s[s.len() - 1].key@));
    }
}

/// Two identical snapshots differ by no event: a second reconcile against
/// the cache the first one stored emits nothing.
pub proof fn lemma_identical_snapshots_no_events(s: Seq<SnapshotEntry>)
    ensures
        spec_hotplug_events(s, s) == Seq::<HotplugEvent>::empty(),
{
    assert forall|i: int| 0 <= i < s.len() implies has_key(s, (#[trigger] s[i]).key@) by {}
    lemma_changes_present(s, s, true);
    lemma_changes_present(s, s, false);
}

/// Every device of `current` whose key `previous` lacks is announced
/// `Connected`, every device of `previous` whose key `current` lacks is
/// announced `Disconnected`, and no other event is emitted.
pub proof fn lemma_events_are_the_differences(
    previous: Seq<SnapshotEntry>,
    current: Seq<SnapshotEntry>,
)
    ensures
        forall|i: int|
            0 <= i < current.len() && !has_key(previous, (#[trigger] current[i]).key@)
                ==> spec_hotplug_events(previous, current).contains(
                HotplugEvent::Connected(current[i].info),
            ),
        forall|i: int|
            0 <= i < previous.len() && !has_key(current, (#[trigger] previous[i]).key@)
                ==> spec_hotplug_events(previous, current).contains(
                HotplugEvent::Disconnected(previous[i].info),
            ),
        forall|k: int|
            0 <= k < spec_hotplug_events(previous, current).len() ==> (exists|i: int|
                0 <= i < current.len() && !has_key(previous, current[i].key@)
                    && #[trigger] spec_hotplug_events(previous, current)[k]
                    == HotplugEvent::Connected(current[i].info)) || (exists|i: int|
                0 <= i < previous.len() && !has_key(current, previous[i].key@)
                    && spec_hotplug_events(previous, current)[k] == HotplugEvent::Disconnected(
                    previous[i].info,
                )),
{
    lemma_changes_members(current, previous, true);
    lemma_changes_members(previous, current, false);
    let a = changes(current, previous, true);
    let r = changes(previous, current, false);
    let ev = spec_hotplug_events(previous, current);
    assert forall|i: int|
        0 <= i < current.len() && !has_key(previous, (#[trigger] current[i]).key@) implies ev.contains(
        HotplugEvent::Connected(current[i].info),
    ) by {
        let k = choose|k: int| 0 <= k < a.len() && a[k] == event_of(current[i].info, true);
        assert(ev[k] == a[k]);
    }
    assert forall|i: int|
        0 <= i < previous.len() && !has_key(current, (#[trigger] previous[i]).key@) implies ev.contains(
        HotplugEvent::Disconnected(previous[i].info),
    ) by {
        let k = choose|k: int| 0 <= k < r.len() && r[k] == event_of(previous[i].info, false);
        assert(ev[a.len() + k] == r[k]);
    }
    assert forall|k: int| 0 <= k < ev.len() implies (exists|i: int|
        0 <= i < current.len() && !has_key(previous, current[i].key@) && #[trigger] ev[k]
            == HotplugEvent::Connected(current[i].info)) || (exists|i: int|
        0 <= i < previous.len() && !has_key(current, previous[i].key@) && ev[k]
            == HotplugEvent::Disconnected(previous[i].info)) by {
        if k < a.len() {
            assert(ev[k] == a[k]);
            let i = choose|i: int|
                0 <= i < current.len() && !has_key(previous, current[i].key@) && a[k] == event_of(
                    current[i].info,
                    true,
                );
        } else {
            assert(ev[k] == r[k - a.len()]);
            let i = choose|i: int|
                0 <= i < previous.len() && !has_key(current, previous[i].key@) && r[k - a.len()]
                    == event_of(previous[i].info, false);
        }
    }
}

/// Within one reconcile every `Connected` event comes before every
/// `Disconnected` event.
pub proof fn lemma_arrivals_precede_removals(
    previous: Seq<SnapshotEntry>,
    current: Seq<SnapshotEntry>,
    i: int,
    j: int,
)
    requires
        0 <= i < j < spec_hotplug_events(previous, current).len(),
        spec_hotplug_events(previous, current)[i] is Disconnected,
    ensures
        spec_hotplug_events(previous, current)[j] is Disconnected,
{
    lemma_changes_members(current, previous, true);
    lemma_changes_members(previous, current, false);
    let a = changes(current, previous, true);
    let r = changes(previous, current, false);
    let ev = spec_hotplug_events(previous, current);
    if i < a.len() {
        assert(ev[i] == a[i]);
        let x = choose|x: int|
            0 <= x < current.len() && !has_key(previous, current[x].key@) && #[trigger] a[i]
                == event_of(current[x].info, true);
        assert(false);
    }
    assert(ev[j] == r[j - a.len()]);
    let y = choose|y: int|
        0 <= y < previous.len() && !has_key(current, previous[y].key@) && #[trigger] r[j - a.len()]
            == event_of(previous[y].info, false);
}


/// Backend-level hotplug source for Video4Linux. The event stream can be
/// taken once; the worker that feeds it is started by the caller once
/// `take_hotplug_events` has granted it.
pub struct V4LHotplugContext {
    taken: bool,
}

impl View for V4LHotplugContext {
    type V = bool;

    /// Whether the event stream has been taken.
    closed spec fn view(&self) -> bool {
        self.taken
    }
}

impl V4LHotplugContext {
    pub fn new() -> (c: V4LHotplugContext)
        ensures
            !c@,
    {
        V4LHotplugContext { taken: false }
    }

    /// Grants the event stream on the first call; every later call is
    /// refused with `UnsupportedOperationError(Video4Linux)`.
    pub fn take_hotplug_events(&mut self) -> (r: Result<(), NokhwaError>)
        ensures
            final(self)@,
            !old(self)@ <==> r is Ok,
            old(self)@ ==> r == Err::<(), NokhwaError>(
                NokhwaError::UnsupportedOperationError(ApiBackend::Video4Linux),
            ),
    {
        if self.taken {
            return Err(NokhwaError::UnsupportedOperationError(ApiBackend::Video4Linux));
        }
        self.taken = true;
        Ok(())
    }
}

impl Default for V4LHotplugContext {
    fn default() -> (c: V4LHotplugContext)
        ensures
            !c@,
    {
        V4LHotplugContext::new()
    }
}

/// Backend-level hotplug source for AVFoundation, taken at most once.
pub struct AVFoundationHotplugContext {
    taken: bool,
}

impl View for AVFoundationHotplugContext {
    type V = bool;

    /// Whether the event stream has been taken.
    closed spec fn view(&self) -> bool {
        self.taken
    }
}

impl AVFoundationHotplugContext {
    pub fn new() -> (c: AVFoundationHotplugContext)
        ensures
            !c@,
    {
        AVFoundationHotplugContext { taken: false }
    }

    /// Grants the event stream on the first call; every later call is
    /// refused with `UnsupportedOperationError(AVFoundation)`.
    pub fn take_hotplug_events(&mut self) -> (r: Result<(), NokhwaError>)
        ensures
            final(self)@,
            !old(self)@ <==> r is Ok,
            old(self)@ ==> r == Err::<(), NokhwaError>(
                NokhwaError::UnsupportedOperationError(ApiBackend::AVFoundation),
            ),
    {
        if self.taken {
            return Err(NokhwaError::UnsupportedOperationError(ApiBackend::AVFoundation));
        }
        self.taken = true;
        Ok(())
    }
}

impl Default for AVFoundationHotplugContext {
    fn default() -> (c: AVFoundationHotplugContext)
        ensures
            !c@,
    {
        AVFoundationHotplugContext::new()
    }
}

/// What the hotplug callback keeps between notifications: the channel to
/// the consumer, the last snapshot, and whether the channel was found
/// closed.
pub struct HotplugCache {
    pub sender: EventSender,
    pub previous: DeviceSnapshot,
    pub channel_dead: bool,
}

/// What one notification does to the cache: once the channel is known
/// closed nothing is sent or cached; otherwise the difference from the
/// cached snapshot to `current` is sent as `reconcile_and_emit_with` sends
/// it, and a refusal marks the channel closed, keeping the cache.
pub open spec fn cache_step(before: HotplugCache, current: Seq<SnapshotEntry>, after: HotplugCache) -> bool {
    let events = spec_hotplug_events(before.previous@, current);
    let n = after.sender.delivered().len() - before.sender.delivered().len();
    &&& before.channel_dead ==> after.channel_dead && after.previous@ == before.previous@
        && after.sender.delivered() == before.sender.delivered()
    &&& !before.channel_dead && !after.channel_dead ==> after.previous@ == current
        && after.sender.delivered() == before.sender.delivered() + events
    &&& !before.channel_dead && after.channel_dead ==> {
        &&& after.previous@ == before.previous@
        &&& after.sender.refused()
        &&& 0 <= n < events.len()
        &&& after.sender.delivered() == before.sender.delivered() + events.take(n)
    }
    &&& !before.channel_dead && events.len() == 0 ==> !after.channel_dead && after.previous@
        == current
}

impl HotplugCache {
    /// A notification arrived and `current` is the fresh enumeration. Once
    /// the channel is known closed nothing more is sent or cached;
    /// otherwise the difference is sent as `reconcile_and_emit_with` sends
    /// it, and a refusal marks the channel closed.
    pub fn on_change(&mut self, current: DeviceSnapshot)
        ensures
            cache_step(*old(self), current@, *final(self)),
    {
        if self.channel_dead {
            return;
        }
        if !reconcile_and_emit_with(&mut self.sender, &mut self.previous, current) {
            self.channel_dead = true;
        }
    }
}

/// The events a run of notifications sends while the channel stays open:
/// the differences from `start` to the first snapshot of `snaps`, then from
/// each snapshot to the next, in order.
pub open spec fn run_events(start: Seq<SnapshotEntry>, snaps: Seq<Seq<SnapshotEntry>>) -> Seq<
    HotplugEvent,
>
    decreases snaps.len(),
{
    if snaps.len() == 0 {
        Seq::empty()
    } else {
        let before = snaps.drop_last();
        let prev = if before.len() == 0 {
            start
        } else {
            before.last()
        };
        run_events(start, before) + spec_hotplug_events(prev, snaps.last())
    }
}

/// Over a run of notifications, `caches[i + 1]` being what notification
/// `snaps[i]` makes of `caches[i]`: while the channel stays open, what was
/// sent is exactly the concatenation of the differences between successive
/// snapshots (the devices of the first snapshot are never announced), and
/// the cache holds the last snapshot; once a send has failed, nothing more
/// is sent and the channel stays closed.
pub proof fn lemma_hotplug_run(caches: Seq<HotplugCache>, snaps: Seq<Seq<SnapshotEntry>>)
    requires
        caches.len() == snaps.len() + 1,
        forall|i: int| 0 <= i < snaps.len() ==> cache_step(caches[i], #[trigger] snaps[i], caches[i + 1]),
    ensures
        !caches[0].channel_dead && !caches.last().channel_dead ==> caches.last().sender.delivered()
            == caches[0].sender.delivered() + run_events(caches[0].previous@, snaps)
            && caches.last().previous@ == (if snaps.len() == 0 {
            caches[0].previous@
        } else {
            snaps.last()
        }),
        forall|i: int, j: int|
            #![trigger caches[i], caches[j]]
            0 <= i <= j < caches.len() && caches[i].channel_dead ==> caches[j].channel_dead
                && caches[j].sender.delivered() == caches[i].sender.delivered(),
    decreases snaps.len(),
{
    let n = snaps.len();
    if n > 0 {
        let cs = caches.drop_last();
        let ss = snaps.drop_last();
        assert forall|i: int| 0 <= i < ss.len() implies cache_step(cs[i], #[trigger] ss[i], cs[i + 1]) by {
            assert(ss[i] == snaps[i]);
            assert(cache_step(caches[i], snaps[i], caches[i + 1]));
        }
        lemma_hotplug_run(cs, ss);
        assert(cache_step(caches[n - 1], snaps[n - 1], caches[n as int]));
        assert(cs.last() == caches[n - 1]);
        if !caches[0].channel_dead && !caches.last().channel_dead {
            assert(!caches[n - 1].channel_dead);
            let start = caches[0].previous@;
            assert(run_events(start, snaps) == run_events(start, ss) + spec_hotplug_events(
                caches[n - 1].previous@,
                snaps.last(),
            ));
            assert(caches.last().sender.delivered() =~= caches[0].sender.delivered() + run_events(
                start,
                snaps,
            ));
        }
        assert forall|i: int, j: int|
            #![trigger caches[i], caches[j]]
            0 <= i <= j < caches.len() && caches[i].channel_dead implies caches[j].channel_dead
                && caches[j].sender.delivered() == caches[i].sender.delivered() by {
            if j < n {
                assert(cs[i] == caches[i] && cs[j] == caches[j]);
            } else if i < n {
                assert(cs[i] == caches[i]);
                assert(cs[n - 1] == caches[n - 1]);
            }
        }
    }
}

/// How one `poll(2)` on the watch descriptor ended.
#[derive(Clone, Copy, Debug, PartialEq, Eq, Structural)]
pub enum PollOutcome {
    Ready,
    Timeout,
    Error,
}

/// Classifies the return value of `poll(2)`: positive means readable, zero
/// a timeout; a negative value is a timeout when the call was interrupted
/// by a signal and an error otherwise.
pub fn poll_outcome(rv: i32, interrupted: bool) -> (o: PollOutcome)
    ensures
        rv > 0 ==> o == PollOutcome::Ready,
        rv == 0 ==> o == PollOutcome::Timeout,
        rv < 0 && interrupted ==> o == PollOutcome::Timeout,
        rv < 0 && !interrupted ==> o == PollOutcome::Error,
{
    if rv > 0 {
        PollOutcome::Ready
    } else if rv == 0 {
        PollOutcome::Timeout
    } else if interrupted {
        PollOutcome::Timeout
    } else {
        PollOutcome::Error
    }
}

/// What to do after one `read(2)` on the non-blocking inotify descriptor.
#[derive(Clone, Copy, Debug, PartialEq, Eq, Structural)]
pub enum DrainStep {
    /// Read again.
    Again,
    /// Nothing left to read; the descriptor is healthy.
    Drained,
    /// The descriptor is unusable.
    Broken,
}

/// Events were read (or a signal interrupted the read): read again. End of
/// file: broken. `EAGAIN`: drained. Any other error: broken.
pub fn drain_step(n: isize, would_block: bool, interrupted: bool) -> (d: DrainStep)
    ensures
        n > 0 ==> d == DrainStep::Again,
        n == 0 ==> d == DrainStep::Broken,
        n < 0 && would_block ==> d == DrainStep::Drained,
        n < 0 && !would_block && interrupted ==> d == DrainStep::Again,
        n < 0 && !would_block && !interrupted ==> d == DrainStep::Broken,
{
    if n > 0 {
        DrainStep::Again
    } else if n == 0 {
        DrainStep::Broken
    } else if would_block {
        DrainStep::Drained
    } else if interrupted {
        DrainStep::Again
    } else {
        DrainStep::Broken
    }
}

/// The next move of the Video4Linux hotplug worker.
#[derive(Clone, Copy, Debug, PartialEq, Eq, Structural)]
pub enum WorkerAction {
    /// Leave the loop and close the descriptor.
    Exit,
    /// Drain the descriptor, re-enumerate and reconcile.
    Refresh,
    /// Poll again.
    PollAgain,
}

/// A raised stop flag ends the worker; otherwise a readable descriptor
/// leads to a refresh, a timeout to another poll, an error to the end.
pub fn worker_action(stop: bool, outcome: PollOutcome) -> (a: WorkerAction)
    ensures
        stop ==> a == WorkerAction::Exit,
        !stop && outcome == PollOutcome::Ready ==> a == WorkerAction::Refresh,
        !stop && outcome == PollOutcome::Timeout ==> a == WorkerAction::PollAgain,
        !stop && outcome == PollOutcome::Error ==> a == WorkerAction::Exit,
{
    if stop {
        return WorkerAction::Exit;
    }
    match outcome {
        PollOutcome::Ready => WorkerAction::Refresh,
        PollOutcome::Timeout => WorkerAction::PollAgain,
        PollOutcome::Error => WorkerAction::Exit,
    }
}

} // verus!
