//! The computations behind publishing a status update: looking up a
//! device's registered name and composing the log line. Storing
//! updates behind a lock, writing the process log and delivering
//! notifications are runtime work and stay with the caller, which
//! routes by `StatusLevel::routes_to_alarm`.

use vstd::prelude::*;

use crate::DeviceId;
use crate::StatusLevel;

verus! {

/// The name of a status level, as it appears in log lines.
pub open spec fn level_name_spec(level: StatusLevel) -> Seq<char> {
    match level {
        StatusLevel::Info => "Info"@,
        StatusLevel::Status => "Status"@,
        StatusLevel::Warning => "Warning"@,
        StatusLevel::Alarm => "Alarm"@,
    }
}

/// The name of a status level, as it appears in log lines.
pub fn level_name(level: StatusLevel) -> (r: &'static str)
    ensures
        r@ == level_name_spec(level),
{
    match level {
        StatusLevel::Info => "Info",
        StatusLevel::Status => "Status",
        StatusLevel::Warning => "Warning",
        StatusLevel::Alarm => "Alarm",
    }
}

/// The name under which a device was registered: that of the last
/// registration carrying its identifier, or a fallback for a device
/// never registered.
pub open spec fn registered_name_spec(devices: Seq<(DeviceId, String)>, id: DeviceId) -> Seq<char>
    decreases devices.len(),
{
    if devices.len() == 0 {
        "Unknwon Device"@
    } else if devices.last().0 == id {
        devices.last().1@
    } else {
        registered_name_spec(devices.drop_last(), id)
    }
}

/// Registry of device monitors known to the status manager.
pub struct DeviceRegistry {
    devices: Vec<(DeviceId, String)>,
}

impl DeviceRegistry {
    /// The registrations made so far, in order.
    pub closed spec fn spec_devices(&self) -> Seq<(DeviceId, String)> {
        self.devices@
    }

    /// An empty registry.
    pub fn new() -> (r: Self)
        ensures
            r.spec_devices() == Seq::<(DeviceId, String)>::empty(),
    {
        let r = DeviceRegistry { devices: Vec::new() };
        proof {
            assert(r.spec_devices() =~= Seq::<(DeviceId, String)>::empty());
        }
        r
    }

    /// Register a device under a name.
    pub fn register_device(&mut self, id: DeviceId, name: String)
        ensures
            final(self).spec_devices() == old(self).spec_devices().push((id, name)),
    {
        self.devices.push((id, name));
    }

    /// A copy of the registrations, in order, for rendering.
    pub fn registrations(&self) -> (r: Vec<(DeviceId, String)>)
        ensures
            r@.len() == self.spec_devices().len(),
            forall|i: int|
                0 <= i < r@.len() ==> {
                    &&& (#[trigger] r@[i]).0 == self.spec_devices()[i].0
                    &&& r@[i].1@ == self.spec_devices()[i].1@
                },
    {
        let mut r: Vec<(DeviceId, String)> = Vec::new();
        let mut i: usize = 0;
        while i < self.devices.len()
            invariant
                i <= self.devices@.len(),
                r@.len() == i,
                forall|j: int|
                    0 <= j < i ==> {
                        &&& (#[trigger] r@[j]).0 == self.devices@[j].0
                        &&& r@[j].1@ == self.devices@[j].1@
                    },
            decreases self.devices@.len() - i,
        {
            let name = self.devices[i].1.clone();
            r.push((self.devices[i].0, name));
            i = i + 1;
        }
        r
    }

    /// Look up the registered name of `id`.
    pub fn device_name(&self, id: DeviceId) -> (r: String)
        ensures
            r@ == registered_name_spec(self.spec_devices(), id),
    {
        let mut name: String = "Unknwon Device".to_owned();
        let mut i: usize = 0;
        while i < self.devices.len()
            invariant
                i <= self.devices@.len(),
                name@ == registered_name_spec(self.devices@.subrange(0, i as int), id),
            decreases self.devices@.len() - i,
        {
            proof {
                assert(self.devices@.subrange(0, i + 1).drop_last() =~= self.devices@.subrange(
                    0,
                    i as int,
                ));
                assert(self.devices@.subrange(0, i + 1).last() == self.devices@[i as int]);
            }
            if self.devices[i].0 == id {
                name = self.devices[i].1.clone();
            }
            i = i + 1;
        }
        proof {
            assert(self.devices@.subrange(0, self.devices@.len() as int) =~= self.devices@);
        }
        name
    }
}

/// One recorded status update.
pub struct StatusEntry {
    /// The update's text.
    pub message: String,
    /// When it was recorded; keeping a clock is the caller's concern.
    pub timestamp: u64,
    /// The update's severity.
    pub level: StatusLevel,
}

/// The updates recorded for `id`: those of the first pair carrying
/// `id`, in order of arrival. With unique keys there is at most one
/// such pair.
pub open spec fn recorded_for(pairs: Seq<(DeviceId, Vec<StatusEntry>)>, id: DeviceId) -> Seq<
    StatusEntry,
>
    decreases pairs.len(),
{
    if pairs.len() == 0 {
        Seq::empty()
    } else if pairs[0].0 == id {
        pairs[0].1@
    } else {
        recorded_for(pairs.drop_first(), id)
    }
}

proof fn lemma_recorded_first_match(pairs: Seq<(DeviceId, Vec<StatusEntry>)>, i: int, id: DeviceId)
    requires
        0 <= i < pairs.len(),
        pairs[i].0 == id,
        forall|j: int| 0 <= j < i ==> pairs[j].0 != id,
    ensures
        recorded_for(pairs, id) == pairs[i].1@,
    decreases i,
{
    if i > 0 {
        lemma_recorded_first_match(pairs.drop_first(), i - 1, id);
    }
}

proof fn lemma_recorded_absent(pairs: Seq<(DeviceId, Vec<StatusEntry>)>, id: DeviceId)
    requires
        forall|j: int| 0 <= j < pairs.len() ==> pairs[j].0 != id,
    ensures
        recorded_for(pairs, id) == Seq::<StatusEntry>::empty(),
    decreases pairs.len(),
{
    if pairs.len() > 0 {
        lemma_recorded_absent(pairs.drop_first(), id);
    }
}

proof fn lemma_recorded_update_other(
    pairs: Seq<(DeviceId, Vec<StatusEntry>)>,
    i: int,
    p: (DeviceId, Vec<StatusEntry>),
    other: DeviceId,
)
    requires
        0 <= i < pairs.len(),
        p.0 != other,
        pairs[i].0 != other,
    ensures
        recorded_for(pairs.update(i, p), other) == recorded_for(pairs, other),
    decreases pairs.len(),
{
    if i == 0 {
        assert(pairs.update(0, p).drop_first() =~= pairs.drop_first());
    } else if pairs[0].0 != other {
        assert(pairs.update(i, p).drop_first() =~= pairs.drop_first().update(i - 1, p));
        lemma_recorded_update_other(pairs.drop_first(), i - 1, p, other);
    }
}

proof fn lemma_recorded_push_other(
    pairs: Seq<(DeviceId, Vec<StatusEntry>)>,
    p: (DeviceId, Vec<StatusEntry>),
    other: DeviceId,
)
    requires
        p.0 != other,
    ensures
        recorded_for(pairs.push(p), other) == recorded_for(pairs, other),
    decreases pairs.len(),
{
    let pushed = pairs.push(p);
    assert(pushed.len() == pairs.len() + 1);
    if pairs.len() == 0 {
        assert(pushed[0] == p);
        assert(pushed.drop_first() =~= Seq::<(DeviceId, Vec<StatusEntry>)>::empty());
        assert(recorded_for(pushed, other) == recorded_for(pushed.drop_first(), other));
        assert(recorded_for(pushed.drop_first(), other) == Seq::<StatusEntry>::empty());
    } else if pairs[0].0 != other {
        assert(pushed[0] == pairs[0]);
        assert(pushed.drop_first() =~= pairs.drop_first().push(p));
        assert(recorded_for(pushed, other) == recorded_for(pushed.drop_first(), other));
        lemma_recorded_push_other(pairs.drop_first(), p, other);
        assert(recorded_for(pairs, other) == recorded_for(pairs.drop_first(), other));
    } else {
        assert(pushed[0] == pairs[0]);
        assert(recorded_for(pushed, other) == pushed[0].1@);
        assert(recorded_for(pairs, other) == pairs[0].1@);
    }
}

/// Per-device status storage: pairs of device identifier and that
/// device's updates in order, each identifier at most once.
pub struct StatusStore {
    statuses: Vec<(DeviceId, Vec<StatusEntry>)>,
}

impl StatusStore {
    /// The stored pairs.
    pub closed spec fn spec_statuses(&self) -> Seq<(DeviceId, Vec<StatusEntry>)> {
        self.statuses@
    }

    /// Each device identifier keys at most one pair.
    pub closed spec fn wf(&self) -> bool {
        forall|i: int, j: int|
            0 <= i < j < self.statuses@.len() ==> (#[trigger] self.statuses@[i]).0 != (
            #[trigger] self.statuses@[j]).0
    }

    /// The updates recorded for `id`, oldest first.
    pub open spec fn entries_for(&self, id: DeviceId) -> Seq<StatusEntry> {
        recorded_for(self.spec_statuses(), id)
    }

    /// An empty store.
    pub fn new() -> (r: Self)
        ensures
            r.wf(),
            forall|id: DeviceId| r.entries_for(id) == Seq::<StatusEntry>::empty(),
    {
        let r = StatusStore { statuses: Vec::new() };
        r
    }

    /// Record one update for `device_id`, appending to its history and
    /// leaving every other device's history untouched.
    pub fn record_status(&mut self, device_id: DeviceId, entry: StatusEntry)
        requires
            old(self).wf(),
        ensures
            final(self).wf(),
            final(self).entries_for(device_id) == old(self).entries_for(device_id).push(entry),
            forall|other: DeviceId|
                other != device_id ==> #[trigger] final(self).entries_for(other) == old(
                    self,
                ).entries_for(other),
    {
        let ghost pairs = self.statuses@;
        let mut i: usize = 0;
        while i < self.statuses.len()
            invariant
                i <= self.statuses@.len(),
                self.statuses@ == pairs,
                pairs == old(self).spec_statuses(),
                old(self).wf(),
                forall|j: int| 0 <= j < i ==> (#[trigger] pairs[j]).0 != device_id,
            decreases self.statuses@.len() - i,
        {
            if self.statuses[i].0 == device_id {
                let mut pair = self.statuses.remove(i);
                pair.1.push(entry);
                self.statuses.insert(i, pair);
                proof {
                    assert(self.statuses@ =~= pairs.update(i as int, self.statuses@[i as int]));
                    lemma_recorded_first_match(pairs, i as int, device_id);
                    lemma_recorded_first_match(self.statuses@, i as int, device_id);
                    assert forall|other: DeviceId| other != device_id implies #[trigger] recorded_for(
                        self.statuses@,
                        other,
                    ) == recorded_for(pairs, other) by {
                        lemma_recorded_update_other(
                            pairs,
                            i as int,
                            self.statuses@[i as int],
                            other,
                        );
                    }
                }
                return ;
            }
            i = i + 1;
        }
        let mut history: Vec<StatusEntry> = Vec::new();
        history.push(entry);
        self.statuses.push((device_id, history));
        proof {
            lemma_recorded_absent(pairs, device_id);
            lemma_recorded_first_match(self.statuses@, pairs.len() as int, device_id);
            assert(self.statuses@[pairs.len() as int].1@ =~= recorded_for(pairs, device_id).push(
                entry,
            ));
            assert forall|other: DeviceId| other != device_id implies #[trigger] recorded_for(
                self.statuses@,
                other,
            ) == recorded_for(pairs, other) by {
                lemma_recorded_push_other(pairs, self.statuses@[pairs.len() as int], other);
            }
        }
    }

    /// The identifiers with recorded updates, in first-update order.
    pub fn device_ids(&self) -> (r: Vec<DeviceId>)
        ensures
            r@.len() == self.spec_statuses().len(),
            forall|i: int| 0 <= i < r@.len() ==> r@[i] == self.spec_statuses()[i].0,
    {
        let mut r: Vec<DeviceId> = Vec::new();
        let mut i: usize = 0;
        while i < self.statuses.len()
            invariant
                i <= self.statuses@.len(),
                r@.len() == i,
                forall|j: int| 0 <= j < i ==> r@[j] == self.statuses@[j].0,
            decreases self.statuses@.len() - i,
        {
            r.push(self.statuses[i].0);
            i = i + 1;
        }
        r
    }

    /// A copy of the updates recorded for `id`, as plain values, for
    /// rendering.
    pub fn entries_snapshot(&self, id: DeviceId) -> (r: Vec<(String, u64, StatusLevel)>)
        requires
            self.wf(),
        ensures
            r@.len() == self.entries_for(id).len(),
            forall|k: int|
                0 <= k < r@.len() ==> {
                    &&& (#[trigger] r@[k]).0@ == self.entries_for(id)[k].message@
                    &&& r@[k].1 == self.entries_for(id)[k].timestamp
                    &&& r@[k].2 == self.entries_for(id)[k].level
                },
    {
        let ghost pairs = self.statuses@;
        let mut r: Vec<(String, u64, StatusLevel)> = Vec::new();
        let mut i: usize = 0;
        while i < self.statuses.len()
            invariant
                self.statuses@ == pairs,
                i <= pairs.len(),
                r@.len() == 0,
                forall|j: int| 0 <= j < i ==> (#[trigger] pairs[j]).0 != id,
            decreases pairs.len() - i,
        {
            if self.statuses[i].0 == id {
                proof {
                    lemma_recorded_first_match(pairs, i as int, id);
                }
                let entries = &self.statuses[i].1;
                let mut k: usize = 0;
                while k < entries.len()
                    invariant
                        entries@ == pairs[i as int].1@,
                        recorded_for(pairs, id) == entries@,
                        k <= entries@.len(),
                        r@.len() == k,
                        forall|m: int|
                            0 <= m < k ==> {
                                &&& (#[trigger] r@[m]).0@ == entries@[m].message@
                                &&& r@[m].1 == entries@[m].timestamp
                                &&& r@[m].2 == entries@[m].level
                            },
                    decreases entries@.len() - k,
                {
                    let message = entries[k].message.clone();
                    r.push((message, entries[k].timestamp, entries[k].level));
                    k = k + 1;
                }
                return r;
            }
            i = i + 1;
        }
        proof {
            lemma_recorded_absent(pairs, id);
        }
        r
    }
}

/// Compose the log line of one status update: the device's name and
/// the level in brackets, then the message.
pub fn compose_log_message(device_name: &str, level: StatusLevel, message: &str) -> (r: String)
    ensures
        r@ == "["@ + device_name@ + ", "@ + level_name_spec(level) + "] "@ + message@,
{
    let mut r: String = "[".to_owned();
    r.append(device_name);
    r.append(", ");
    r.append(level_name(level));
    r.append("] ");
    r.append(message);
    r
}

} // verus!
