//! The monitor registry: at most one monitor for each device id.
//!
//! The registry holds, for each monitored device, whatever its owner needs to
//! stop that monitor later. It only ever hands a monitor out by removing it,
//! so that whoever takes one is the only one left to stop it.

use vstd::prelude::*;

verus! {

/// No device id stands twice in `entries`.
pub open spec fn keys_distinct<T>(entries: Seq<(String, T)>) -> bool {
    forall|i: int, j: int| 0 <= i < j < entries.len() ==> entries[i].0@ != entries[j].0@
}

/// Whether `id` stands at position `i` of `entries`.
pub open spec fn holds_at<T>(entries: Seq<(String, T)>, id: Seq<char>, i: int) -> bool {
    0 <= i < entries.len() && entries[i].0@ == id
}

/// The monitors of `entries` by device id.
pub open spec fn as_map<T>(entries: Seq<(String, T)>) -> Map<Seq<char>, T> {
    Map::new(
        |id: Seq<char>| exists|i: int| holds_at(entries, id, i),
        |id: Seq<char>| entries[choose|i: int| holds_at(entries, id, i)].1,
    )
}

/// Each entry of a list without repeated ids is found under its id.
pub proof fn lemma_as_map_entry<T>(entries: Seq<(String, T)>, i: int)
    requires
        keys_distinct(entries),
        0 <= i < entries.len(),
    ensures
        as_map(entries).contains_key(entries[i].0@),
        as_map(entries)[entries[i].0@] == entries[i].1,
{
    let id = entries[i].0@;
    assert(holds_at(entries, id, i));
    let j = choose|j: int| holds_at(entries, id, j);
    assert(j == i);
}

/// Adding an entry with a new id adds it to the map.
pub proof fn lemma_as_map_push<T>(entries: Seq<(String, T)>, id: String, monitor: T)
    requires
        keys_distinct(entries),
        !as_map(entries).contains_key(id@),
    ensures
        keys_distinct(entries.push((id, monitor))),
        as_map(entries.push((id, monitor))) == as_map(entries).insert(id@, monitor),
{
    let longer = entries.push((id, monitor));
    assert forall|i: int, j: int| 0 <= i < j < longer.len() implies longer[i].0@
        != longer[j].0@ by {
        if j == entries.len() {
            assert(!holds_at(entries, id@, i));
        }
    }
    assert forall|key: Seq<char>| #[trigger]
        as_map(longer).contains_key(key) == as_map(entries).insert(id@, monitor).contains_key(
            key,
        ) by {
        if as_map(longer).contains_key(key) {
            let i = choose|i: int| holds_at(longer, key, i);
            if i < entries.len() {
                assert(holds_at(entries, key, i));
            }
        }
        if as_map(entries).contains_key(key) {
            let i = choose|i: int| holds_at(entries, key, i);
            assert(holds_at(longer, key, i));
        }
        if key == id@ {
            assert(holds_at(longer, key, entries.len() as int));
        }
    }
    assert forall|key: Seq<char>| #[trigger]
        as_map(longer).contains_key(key) implies as_map(longer)[key] == as_map(entries).insert(
        id@,
        monitor,
    )[key] by {
        let i = choose|i: int| holds_at(longer, key, i);
        lemma_as_map_entry(longer, i);
        if i < entries.len() {
            lemma_as_map_entry(entries, i);
        }
    }
    assert(as_map(longer) =~= as_map(entries).insert(id@, monitor));
}

/// Taking the entry at position `i` out takes its id out of the map.
pub proof fn lemma_as_map_remove<T>(entries: Seq<(String, T)>, i: int)
    requires
        keys_distinct(entries),
        0 <= i < entries.len(),
    ensures
        keys_distinct(entries.remove(i)),
        as_map(entries.remove(i)) == as_map(entries).remove(entries[i].0@),
{
    let shorter = entries.remove(i);
    let id = entries[i].0@;
    assert forall|a: int, b: int| 0 <= a < b < shorter.len() implies shorter[a].0@
        != shorter[b].0@ by {
        let a0 = if a < i { a } else { a + 1 };
        let b0 = if b < i { b } else { b + 1 };
        assert(shorter[a] == entries[a0]);
        assert(shorter[b] == entries[b0]);
    }
    assert forall|key: Seq<char>| #[trigger]
        as_map(shorter).contains_key(key) == as_map(entries).remove(id).contains_key(key) by {
        if as_map(shorter).contains_key(key) {
            let a = choose|a: int| holds_at(shorter, key, a);
            let a0 = if a < i { a } else { a + 1 };
            assert(shorter[a] == entries[a0]);
            assert(holds_at(entries, key, a0));
        }
        if as_map(entries).remove(id).contains_key(key) {
            let a0 = choose|a0: int| holds_at(entries, key, a0);
            let a = if a0 < i { a0 } else { a0 - 1 };
            assert(shorter[a] == entries[a0]);
            assert(holds_at(shorter, key, a));
        }
    }
    assert forall|key: Seq<char>| #[trigger]
        as_map(shorter).contains_key(key) implies as_map(shorter)[key] == as_map(entries).remove(
        id,
    )[key] by {
        let a = choose|a: int| holds_at(shorter, key, a);
        let a0 = if a < i { a } else { a + 1 };
        assert(shorter[a] == entries[a0]);
        lemma_as_map_entry(shorter, a);
        lemma_as_map_entry(entries, a0);
    }
    assert(as_map(shorter) =~= as_map(entries).remove(id));
}

/// A list without repeated ids holds as many entries as its map has ids.
pub proof fn lemma_as_map_len<T>(entries: Seq<(String, T)>)
    requires
        keys_distinct(entries),
    ensures
        as_map(entries).dom().finite(),
        as_map(entries).dom().len() == entries.len(),
    decreases entries.len(),
{
    if entries.len() == 0 {
        assert(as_map(entries).dom() =~= Set::empty());
    } else {
        let front = entries.drop_last();
        let last = entries.last();
        lemma_as_map_len(front);
        if as_map(front).contains_key(last.0@) {
            let i = choose|i: int| holds_at(front, last.0@, i);
            assert(entries[i].0@ == entries[entries.len() - 1].0@);
        }
        lemma_as_map_push(front, last.0, last.1);
        assert(front.push((last.0, last.1)) == entries);
    }
}

/// The table of running monitors by device id.
pub struct Registry<T> {
    entries: Vec<(String, T)>,
}

impl<T> View for Registry<T> {
    type V = Map<Seq<char>, T>;

    closed spec fn view(&self) -> Map<Seq<char>, T> {
        as_map(self.entries@)
    }
}

impl<T> Registry<T> {
    /// No device id stands twice in the table.
    pub closed spec fn wf(&self) -> bool {
        keys_distinct(self.entries@)
    }

    /// A registry without monitors.
    pub fn new() -> (registry: Registry<T>)
        ensures
            registry.wf(),
            registry@ == Map::<Seq<char>, T>::empty(),
    {
        let registry = Registry { entries: Vec::new() };
        proof {
            assert(registry@ =~= Map::<Seq<char>, T>::empty());
        }
        registry
    }

    /// The number of monitored devices.
    pub fn len(&self) -> (count: usize)
        requires
            self.wf(),
        ensures
            self@.dom().finite(),
            count == self@.dom().len(),
    {
        proof {
            lemma_as_map_len(self.entries@);
        }
        self.entries.len()
    }

    fn position(&self, device_id: &String) -> (found: Option<usize>)
        requires
            self.wf(),
        ensures
            match found {
                Some(i) => holds_at(self.entries@, device_id@, i as int),
                None => !self@.contains_key(device_id@),
            },
    {
        let mut i: usize = 0;
        while i < self.entries.len()
            invariant
                i <= self.entries.len(),
                forall|j: int| 0 <= j < i ==> !holds_at(self.entries@, device_id@, j),
            decreases self.entries.len() - i,
        {
            if self.entries[i].0 == *device_id {
                return Some(i);
            }
            i += 1;
        }
        None
    }

    /// Whether the device has a monitor.
    pub fn contains(&self, device_id: &String) -> (present: bool)
        requires
            self.wf(),
        ensures
            present == self@.contains_key(device_id@),
    {
        match self.position(device_id) {
            Some(i) => {
                proof {
                    lemma_as_map_entry(self.entries@, i as int);
                }
                true
            },
            None => false,
        }
    }

    /// Takes the monitor of the device out of the table, if it has one. The
    /// caller is then the one to stop it.
    pub fn take(&mut self, device_id: &String) -> (taken: Option<T>)
        requires
            old(self).wf(),
        ensures
            final(self).wf(),
            final(self)@ == old(self)@.remove(device_id@),
            taken == if old(self)@.contains_key(device_id@) {
                Some(old(self)@[device_id@])
            } else {
                None
            },
    {
        match self.position(device_id) {
            Some(i) => {
                proof {
                    lemma_as_map_entry(self.entries@, i as int);
                    lemma_as_map_remove(self.entries@, i as int);
                }
                let entry = self.entries.remove(i);
                Some(entry.1)
            },
            None => {
                proof {
                    assert(self@.remove(device_id@) =~= self@);
                }
                None
            },
        }
    }

    /// Puts `monitor` under the device id and hands back the monitor that
    /// stood there before, if any. The caller is then the one to stop it.
    pub fn install(&mut self, device_id: String, monitor: T) -> (displaced: Option<T>)
        requires
            old(self).wf(),
        ensures
            final(self).wf(),
            final(self)@ == old(self)@.insert(device_id@, monitor),
            displaced == if old(self)@.contains_key(device_id@) {
                Some(old(self)@[device_id@])
            } else {
                None
            },
    {
        let displaced = self.take(&device_id);
        proof {
            lemma_as_map_push(self.entries@, device_id, monitor);
            assert(old(self)@.remove(device_id@).insert(device_id@, monitor) =~= old(self)@.insert(
                device_id@,
                monitor,
            ));
        }
        self.entries.push((device_id, monitor));
        displaced
    }

    /// Takes every monitor out of the table. The caller is then the one to
    /// stop them.
    pub fn drain(&mut self) -> (taken: Vec<(String, T)>)
        requires
            old(self).wf(),
        ensures
            final(self).wf(),
            final(self)@ == Map::<Seq<char>, T>::empty(),
            keys_distinct(taken@),
            as_map(taken@) == old(self)@,
            taken@.len() == old(self)@.dom().len(),
    {
        proof {
            lemma_as_map_len(self.entries@);
        }
        let mut taken: Vec<(String, T)> = Vec::new();
        std::mem::swap(&mut self.entries, &mut taken);
        proof {
            assert(self@ =~= Map::<Seq<char>, T>::empty());
        }
        taken
    }
}

/// Starting a monitor twice for one device leaves exactly one monitor for
/// it: the second start displaces the first monitor, which is handed back to
/// be stopped, and the number of monitored devices stays the same.
pub proof fn lemma_restart_leaves_one<T>(
    monitors: Map<Seq<char>, T>,
    device_id: Seq<char>,
    first: T,
    second: T,
)
    requires
        monitors.dom().finite(),
    ensures
        ({
            let once = monitors.insert(device_id, first);
            let twice = once.insert(device_id, second);
            &&& once.contains_key(device_id) && once[device_id] == first
            &&& twice[device_id] == second
            &&& twice.dom() == once.dom()
            &&& twice.dom().len() == once.dom().len()
            &&& twice == monitors.insert(device_id, second)
        }),
{
    let once = monitors.insert(device_id, first);
    let twice = once.insert(device_id, second);
    assert(twice.dom() =~= once.dom());
    assert(twice =~= monitors.insert(device_id, second));
}

/// Stopping a monitor twice is the same as stopping it once, and stopping
/// one device leaves the monitors of all others in place.
pub proof fn lemma_stop_is_idempotent<T>(monitors: Map<Seq<char>, T>, device_id: Seq<char>)
    ensures
        !monitors.remove(device_id).contains_key(device_id),
        monitors.remove(device_id).remove(device_id) == monitors.remove(device_id),
        forall|other: Seq<char>|
            other != device_id && monitors.contains_key(other) ==> #[trigger] monitors.remove(
                device_id,
            ).contains_key(other) && monitors.remove(device_id)[other] == monitors[other],
{
    assert(monitors.remove(device_id).remove(device_id) =~= monitors.remove(device_id));
}

} // verus!
