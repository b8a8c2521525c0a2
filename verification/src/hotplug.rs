//! Tracking devices as they come and go: each device seen during a session
//! has a state, updated by each poll of what is attached and as work on it is
//! dispatched and finished.

use vstd::prelude::*;

use crate::text::{chars_of, copy_string};

verus! {

/// Where a device that is, or has been, attached during the session stands.
#[derive(Debug, Clone, Copy, PartialEq, Eq, Structural)]
pub enum AttachedDeviceState {
    /// Attached, not yet processed.
    Connected,
    /// Being processed.
    Processing,
    /// Processed, and still attached.
    Complete,
    /// No longer attached.
    Disconnected,
}

/// A device, by its key, and its state.
#[derive(Debug)]
pub struct DeviceEntry {
    pub key: String,
    pub state: AttachedDeviceState,
}

/// Whether some entry has key `k`.
pub open spec fn has_key(s: Seq<DeviceEntry>, k: Seq<char>) -> bool {
    exists|i: int| 0 <= i < s.len() && #[trigger] s[i].key@ == k
}

/// The state recorded for key `k`.
pub open spec fn state_at(s: Seq<DeviceEntry>, k: Seq<char>) -> AttachedDeviceState {
    s[choose|i: int| 0 <= i < s.len() && #[trigger] s[i].key@ == k].state
}

/// Whether `a` is what a poll makes of `b` when the devices `attached` were
/// found.
pub open spec fn polled_entry(a: DeviceEntry, b: DeviceEntry, attached: Set<Seq<char>>) -> bool {
    a.key@ == b.key@ && a.state == (if attached.contains(b.key@) {
        b.state
    } else {
        AttachedDeviceState::Disconnected
    })
}

/// Whether `a` is what dispatching work makes of `b`.
pub open spec fn dispatched_entry(a: DeviceEntry, b: DeviceEntry) -> bool {
    a.key@ == b.key@ && a.state == (if b.state == AttachedDeviceState::Connected {
        AttachedDeviceState::Processing
    } else {
        b.state
    })
}

/// Whether `a` is `b`, marked complete when it is at position `done`.
pub open spec fn finished_entry(a: DeviceEntry, b: DeviceEntry, at: int, done: int) -> bool {
    a.key@ == b.key@ && a.state == (if at == done {
        AttachedDeviceState::Complete
    } else {
        b.state
    })
}

/// No key is recorded twice.
pub open spec fn distinct_keys(s: Seq<DeviceEntry>) -> bool {
    forall|i: int, j: int| 0 <= i < j < s.len() ==> #[trigger] s[i].key@ != #[trigger] s[j].key@
}

/// The states as a map from device key.
pub open spec fn states_of(s: Seq<DeviceEntry>) -> Map<Seq<char>, AttachedDeviceState> {
    Map::new(|k: Seq<char>| has_key(s, k), |k: Seq<char>| state_at(s, k))
}

/// The state of every device seen in the session.
#[derive(Debug)]
pub struct DeviceStates {
    entries: Vec<DeviceEntry>,
}

impl View for DeviceStates {
    type V = Map<Seq<char>, AttachedDeviceState>;

    closed spec fn view(&self) -> Map<Seq<char>, AttachedDeviceState> {
        states_of(self.entries@)
    }
}

/// The states after a poll that found the devices keyed `attached` when the
/// states were `before`: an attached device keeps the state it had, or is
/// connected when new; a device no longer attached is disconnected.
pub open spec fn polled(
    before: Map<Seq<char>, AttachedDeviceState>,
    attached: Set<Seq<char>>,
) -> Map<Seq<char>, AttachedDeviceState> {
    Map::new(
        |k: Seq<char>| before.dom().contains(k) || attached.contains(k),
        |k: Seq<char>|
            if attached.contains(k) {
                if before.dom().contains(k) {
                    before[k]
                } else {
                    AttachedDeviceState::Connected
                }
            } else {
                AttachedDeviceState::Disconnected
            },
    )
}

/// Polling again with the same devices attached changes nothing.
pub proof fn law_poll_idempotent(states: Map<Seq<char>, AttachedDeviceState>, attached: Set<Seq<char>>)
    ensures
        polled(polled(states, attached), attached) == polled(states, attached),
{
    assert(polled(polled(states, attached), attached) =~= polled(states, attached));
}

/// A poll forgets no device: every device seen before it is still tracked,
/// and every device found attached is tracked.
pub proof fn law_poll_remembers(states: Map<Seq<char>, AttachedDeviceState>, attached: Set<Seq<char>>)
    ensures
        states.dom().subset_of(polled(states, attached).dom()),
        attached.subset_of(polled(states, attached).dom()),
{
}

/// What a poll makes of each device: one seen before that is still attached
/// keeps its state (so a device processed and still attached stays complete
/// and is not dispatched again), one newly attached is connected, and one
/// seen before that is no longer attached is disconnected. No other device is
/// tracked.
pub proof fn law_poll_states(before: Map<Seq<char>, AttachedDeviceState>, attached: Set<Seq<char>>)
    ensures
        forall|k: Seq<char>|
            attached.contains(k) && before.dom().contains(k) ==> #[trigger] polled(before, attached)[k] == before[k],
        forall|k: Seq<char>|
            attached.contains(k) && !before.dom().contains(k) ==> #[trigger] polled(before, attached)[k]
                == AttachedDeviceState::Connected,
        forall|k: Seq<char>|
            !attached.contains(k) && before.dom().contains(k) ==> #[trigger] polled(before, attached)[k]
                == AttachedDeviceState::Disconnected,
        polled(before, attached).dom() == before.dom().union(attached),
{
    assert(polled(before, attached).dom() =~= before.dom().union(attached));
}

/// Once work is dispatched, no device is left waiting for it.
pub proof fn law_dispatch_leaves_none_connected(
    before: Map<Seq<char>, AttachedDeviceState>,
    after: Map<Seq<char>, AttachedDeviceState>,
)
    requires
        after.dom() == before.dom(),
        forall|k: Seq<char>|
            #[trigger] before.dom().contains(k) ==> after[k] == (if before[k] == AttachedDeviceState::Connected {
                AttachedDeviceState::Processing
            } else {
                before[k]
            }),
    ensures
        forall|k: Seq<char>| #[trigger] after.dom().contains(k) ==> after[k] != AttachedDeviceState::Connected,
{
}

/// The keys as a set.
pub open spec fn key_set(v: Seq<String>) -> Set<Seq<char>> {
    Set::new(|k: Seq<char>| exists|i: int| 0 <= i < v.len() && #[trigger] v[i]@ == k)
}

proof fn lemma_state_at(s: Seq<DeviceEntry>, i: int)
    requires
        distinct_keys(s),
        0 <= i < s.len(),
    ensures
        has_key(s, s[i].key@),
        state_at(s, s[i].key@) == s[i].state,
{
    let k = s[i].key@;
    assert(s[i].key@ == k);
    let j = choose|j: int| 0 <= j < s.len() && #[trigger] s[j].key@ == k;
    if j != i {
        if j < i {
            assert(s[j].key@ != s[i].key@);
        } else {
            assert(s[i].key@ != s[j].key@);
        }
    }
}

/// Whether `k` is one of `v`.
fn contains_key(v: &Vec<String>, k: &String) -> (r: bool)
    ensures
        r == key_set(v@).contains(k@),
{
    let target = chars_of(k.as_str());
    let mut i: usize = 0;
    while i < v.len()
        invariant
            target@ == k@,
            i <= v.len(),
            forall|j: int| 0 <= j < i ==> v@[j]@ != k@,
        decreases v.len() - i,
    {
        let c = chars_of(v[i].as_str());
        if same(&c, &target) {
            assert(v@[i as int]@ == k@);
            return true;
        }
        i = i + 1;
    }
    false
}

/// Whether some entry is keyed `k`.
fn find_key(v: &Vec<DeviceEntry>, k: &String) -> (r: bool)
    ensures
        r == has_key(v@, k@),
{
    let target = chars_of(k.as_str());
    let mut i: usize = 0;
    while i < v.len()
        invariant
            target@ == k@,
            i <= v.len(),
            forall|j: int| 0 <= j < i ==> v@[j].key@ != k@,
        decreases v.len() - i,
    {
        let c = chars_of(v[i].key.as_str());
        if same(&c, &target) {
            assert(v@[i as int].key@ == k@);
            return true;
        }
        i = i + 1;
    }
    false
}

fn same(a: &Vec<char>, b: &Vec<char>) -> (r: bool)
    ensures
        r == (a@ == b@),
{
    if a.len() != b.len() {
        return false;
    }
    let mut i: usize = 0;
    while i < a.len()
        invariant
            a.len() == b.len(),
            i <= a.len(),
            forall|j: int| 0 <= j < i ==> a@[j] == b@[j],
        decreases a.len() - i,
    {
        if a[i] != b[i] {
            return false;
        }
        i = i + 1;
    }
    assert(a@ =~= b@);
    true
}

impl DeviceStates {
    /// No device is recorded twice.
    #[verifier::type_invariant]
    closed spec fn well_formed(&self) -> bool {
        distinct_keys(self.entries@)
    }

    /// No device seen yet.
    pub fn new() -> (s: DeviceStates)
        ensures
            s@ == Map::<Seq<char>, AttachedDeviceState>::empty(),
    {
        let s = DeviceStates { entries: Vec::new() };
        assert(s@ =~= Map::<Seq<char>, AttachedDeviceState>::empty());
        s
    }

    /// Takes in the devices found attached (by key): each keeps its state, or
    /// is connected when new; every other device seen before is disconnected.
    pub fn poll(&mut self, attached: &Vec<String>)
        ensures
            final(self)@ == polled(old(self)@, key_set(attached@)),
    {
        proof {
            use_type_invariant(&*self);
        }
        let ghost before = self.entries@;
        let mut out: Vec<DeviceEntry> = Vec::new();
        let mut i: usize = 0;
        while i < self.entries.len()
            invariant
                self.entries@ == before,
                distinct_keys(before),
                i <= before.len(),
                out@.len() == i,
                forall|j: int|
                    0 <= j < i ==> #[trigger] polled_entry(out@[j], before[j], key_set(attached@)),
            decreases before.len() - i,
        {
            let e = &self.entries[i];
            let state = if contains_key(attached, &e.key) {
                e.state
            } else {
                AttachedDeviceState::Disconnected
            };
            let ghost prev = out@;
            out.push(DeviceEntry { key: copy_string(&e.key), state });
            proof {
                assert(e.key@ == before[i as int].key@);
                assert(out@[i as int].key@ == e.key@);
                assert(out@[i as int].state == state);
                assert forall|j: int| 0 <= j < i + 1 implies #[trigger] polled_entry(out@[j], before[j], key_set(attached@)) by {
                    if j < i {
                        assert(out@[j] == prev[j]);
                        assert(polled_entry(prev[j], before[j], key_set(attached@)));
                    } else {
                        assert(j == i);
                        assert(polled_entry(out@[j], before[j], key_set(attached@)));
                    }
                }
            }
            i = i + 1;
        }
        proof {
            assert forall|a: int, b: int| 0 <= a < b < out@.len() implies #[trigger] out@[a].key@
                != #[trigger] out@[b].key@ by {
                assert(polled_entry(out@[a], before[a], key_set(attached@)));
                assert(polled_entry(out@[b], before[b], key_set(attached@)));
            }
        }
        let ghost mid = out@;
        let mut j: usize = 0;
        while j < attached.len()
            invariant
                distinct_keys(before),
                mid.len() == before.len(),
                forall|x: int|
                    0 <= x < mid.len() ==> #[trigger] polled_entry(mid[x], before[x], key_set(attached@)),
                j <= attached.len(),
                distinct_keys(out@),
                out@.len() >= mid.len(),
                out@.subrange(0, mid.len() as int) == mid,
                forall|x: int|
                    mid.len() <= x < out@.len() ==> (#[trigger] out@[x]).state == AttachedDeviceState::Connected
                        && !has_key(before, out@[x].key@) && key_set(attached@).contains(out@[x].key@),
                forall|y: int| 0 <= y < j ==> has_key(out@, #[trigger] attached@[y]@),
            decreases attached.len() - j,
        {
            let k = &attached[j];
            let ghost prev = out@;
            if !find_key(&out, k) {
                proof {
                    assert(key_set(attached@).contains(k@)) by {
                        assert(attached@[j as int]@ == k@);
                    }
                    if has_key(before, k@) {
                        let x = choose|x: int| 0 <= x < before.len() && #[trigger] before[x].key@ == k@;
                        assert(prev[x] == mid[x]);
                        assert(polled_entry(mid[x], before[x], key_set(attached@)));
                        assert(mid[x].key@ == k@);
                        assert(has_key(prev, k@));
                    }
                }
                out.push(DeviceEntry { key: copy_string(k), state: AttachedDeviceState::Connected });
                proof {
                    assert(out@.subrange(0, mid.len() as int) =~= prev.subrange(0, mid.len() as int));
                    assert forall|y: int| 0 <= y <= j implies has_key(out@, #[trigger] attached@[y]@) by {
                        if y < j {
                            let x = choose|x: int| 0 <= x < prev.len() && #[trigger] prev[x].key@ == attached@[y]@;
                            assert(out@[x] == prev[x]);
                        } else {
                            assert(out@[prev.len() as int].key@ == attached@[y]@);
                        }
                    }
                    assert forall|a: int, b: int| 0 <= a < b < out@.len() implies #[trigger] out@[a].key@
                        != #[trigger] out@[b].key@ by {
                        if b == prev.len() {
                            assert(out@[a] == prev[a]);
                        } else {
                            assert(out@[a] == prev[a] && out@[b] == prev[b]);
                        }
                    }
                    assert forall|x: int| mid.len() <= x < out@.len() implies (#[trigger] out@[x]).state
                        == AttachedDeviceState::Connected && !has_key(before, out@[x].key@) && key_set(
                        attached@,
                    ).contains(out@[x].key@) by {
                        if x < prev.len() {
                            assert(out@[x] == prev[x]);
                        }
                    }
                }
            } else {
                proof {
                    assert(has_key(out@, attached@[j as int]@));
                }
            }
            j = j + 1;
        }
        proof {
            let target = polled(states_of(before), key_set(attached@));
            assert forall|k: Seq<char>| #[trigger] has_key(out@, k) == target.dom().contains(k) by {
                if has_key(out@, k) {
                    let x = choose|x: int| 0 <= x < out@.len() && #[trigger] out@[x].key@ == k;
                    if x < mid.len() {
                        assert(out@[x] == mid[x]);
                        assert(polled_entry(mid[x], before[x], key_set(attached@)));
                        assert(before[x].key@ == k);
                        assert(has_key(before, k));
                    }
                }
                if has_key(before, k) {
                    let x = choose|x: int| 0 <= x < before.len() && #[trigger] before[x].key@ == k;
                    assert(out@[x] == mid[x]);
                    assert(polled_entry(mid[x], before[x], key_set(attached@)));
                    assert(out@[x].key@ == k);
                    assert(has_key(out@, k));
                }
                if key_set(attached@).contains(k) {
                    let y = choose|y: int| 0 <= y < attached@.len() && #[trigger] attached@[y]@ == k;
                    assert(has_key(out@, attached@[y]@));
                }
            }
            assert forall|k: Seq<char>| #[trigger] has_key(out@, k) implies state_at(out@, k) == target[k] by {
                let x = choose|x: int| 0 <= x < out@.len() && #[trigger] out@[x].key@ == k;
                lemma_state_at(out@, x);
                if x < mid.len() {
                    assert(out@[x] == mid[x]);
                    assert(polled_entry(mid[x], before[x], key_set(attached@)));
                    assert(before[x].key@ == k);
                    lemma_state_at(before, x);
                } else {
                    assert(!has_key(before, k));
                }
            }
            assert(states_of(out@) =~= target);
        }
        self.entries = out;
    }

    /// Starts work on every connected device: each becomes processing, and
    /// their keys are returned.
    pub fn dispatch(&mut self) -> (started: Vec<String>)
        ensures
            final(self)@.dom() == old(self)@.dom(),
            forall|k: Seq<char>|
                #[trigger] old(self)@.dom().contains(k) ==> final(self)@[k] == (if old(self)@[k]
                    == AttachedDeviceState::Connected {
                    AttachedDeviceState::Processing
                } else {
                    old(self)@[k]
                }),
            key_set(started@) == Set::new(
                |k: Seq<char>| old(self)@.dom().contains(k) && old(self)@[k] == AttachedDeviceState::Connected,
            ),
    {
        proof {
            use_type_invariant(&*self);
        }
        let ghost before = self.entries@;
        let mut out: Vec<DeviceEntry> = Vec::new();
        let mut started: Vec<String> = Vec::new();
        let mut i: usize = 0;
        while i < self.entries.len()
            invariant
                self.entries@ == before,
                distinct_keys(before),
                i <= before.len(),
                out@.len() == i,
                forall|j: int|
                    0 <= j < i ==> #[trigger] dispatched_entry(out@[j], before[j]),
                forall|k: Seq<char>|
                    #[trigger] key_set(started@).contains(k) == (exists|j: int|
                        0 <= j < i && #[trigger] before[j].key@ == k && before[j].state
                            == AttachedDeviceState::Connected),
            decreases before.len() - i,
        {
            let e = &self.entries[i];
            let ghost prev = started@;
            let ghost prev_out = out@;
            if e.state == AttachedDeviceState::Connected {
                started.push(copy_string(&e.key));
                out.push(DeviceEntry { key: copy_string(&e.key), state: AttachedDeviceState::Processing });
                proof {
                    assert forall|k: Seq<char>| #[trigger] key_set(started@).contains(k) == (exists|j: int|
                        0 <= j < i + 1 && #[trigger] before[j].key@ == k && before[j].state
                            == AttachedDeviceState::Connected) by {
                        if key_set(started@).contains(k) {
                            let y = choose|y: int| 0 <= y < started@.len() && #[trigger] started@[y]@ == k;
                            if y < prev.len() {
                                assert(started@[y] == prev[y]);
                                assert(key_set(prev).contains(k));
                            }
                        }
                        if exists|j: int|
                            0 <= j < i + 1 && #[trigger] before[j].key@ == k && before[j].state
                                == AttachedDeviceState::Connected {
                            let j = choose|j: int|
                                0 <= j < i + 1 && #[trigger] before[j].key@ == k && before[j].state
                                    == AttachedDeviceState::Connected;
                            if j < i {
                                assert(key_set(prev).contains(k));
                                let y = choose|y: int| 0 <= y < prev.len() && #[trigger] prev[y]@ == k;
                                assert(started@[y] == prev[y]);
                            } else {
                                assert(started@[prev.len() as int]@ == k);
                            }
                        }
                    }
                }
            } else {
                out.push(DeviceEntry { key: copy_string(&e.key), state: e.state });
                proof {
                    assert forall|k: Seq<char>| #[trigger] key_set(started@).contains(k) == (exists|j: int|
                        0 <= j < i + 1 && #[trigger] before[j].key@ == k && before[j].state
                            == AttachedDeviceState::Connected) by {
                        if exists|j: int|
                            0 <= j < i + 1 && #[trigger] before[j].key@ == k && before[j].state
                                == AttachedDeviceState::Connected {
                            let j = choose|j: int|
                                0 <= j < i + 1 && #[trigger] before[j].key@ == k && before[j].state
                                    == AttachedDeviceState::Connected;
                            assert(j < i);
                        }
                    }
                }
            }
            proof {
                assert forall|j: int| 0 <= j < i + 1 implies #[trigger] dispatched_entry(out@[j], before[j]) by {
                    if j < i {
                        assert(out@[j] == prev_out[j]);
                        assert(dispatched_entry(prev_out[j], before[j]));
                    }
                }
            }
            i = i + 1;
        }
        proof {
            assert forall|a: int, b: int| 0 <= a < b < out@.len() implies #[trigger] out@[a].key@
                != #[trigger] out@[b].key@ by {
                assert(dispatched_entry(out@[a], before[a]));
                assert(dispatched_entry(out@[b], before[b]));
            }
            assert forall|k: Seq<char>| #[trigger] has_key(out@, k) == has_key(before, k) by {
                if has_key(out@, k) {
                    let x = choose|x: int| 0 <= x < out@.len() && #[trigger] out@[x].key@ == k;
                    assert(dispatched_entry(out@[x], before[x]));
                    assert(before[x].key@ == k);
                }
                if has_key(before, k) {
                    let x = choose|x: int| 0 <= x < before.len() && #[trigger] before[x].key@ == k;
                    assert(dispatched_entry(out@[x], before[x]));
                    assert(out@[x].key@ == k);
                }
            }
            assert(states_of(out@).dom() =~= states_of(before).dom());
            assert forall|k: Seq<char>| #[trigger] states_of(before).dom().contains(k) implies states_of(
                out@,
            )[k] == (if states_of(before)[k] == AttachedDeviceState::Connected {
                AttachedDeviceState::Processing
            } else {
                states_of(before)[k]
            }) by {
                let x = choose|x: int| 0 <= x < before.len() && #[trigger] before[x].key@ == k;
                lemma_state_at(before, x);
                assert(dispatched_entry(out@[x], before[x]));
                assert(out@[x].key@ == k);
                lemma_state_at(out@, x);
            }
            let want = Set::new(
                |k: Seq<char>| states_of(before).dom().contains(k) && states_of(before)[k] == AttachedDeviceState::Connected,
            );
            assert forall|k: Seq<char>| #[trigger] key_set(started@).contains(k) == want.contains(k) by {
                if key_set(started@).contains(k) {
                    let j = choose|j: int|
                        0 <= j < before.len() && #[trigger] before[j].key@ == k && before[j].state
                            == AttachedDeviceState::Connected;
                    lemma_state_at(before, j);
                }
                if want.contains(k) {
                    let x = choose|x: int| 0 <= x < before.len() && #[trigger] before[x].key@ == k;
                    lemma_state_at(before, x);
                    assert(before[x].key@ == k && before[x].state == AttachedDeviceState::Connected);
                }
            }
            assert(key_set(started@) =~= want);
        }
        self.entries = out;
        started
    }

    /// Records that work on the device keyed `key` finished: it is complete.
    /// Other devices keep their states; an unknown key changes nothing.
    pub fn finish(&mut self, key: &String)
        ensures
            final(self)@ == (if old(self)@.dom().contains(key@) {
                old(self)@.insert(key@, AttachedDeviceState::Complete)
            } else {
                old(self)@
            }),
    {
        proof {
            use_type_invariant(&*self);
        }
        let ghost before = self.entries@;
        let target = chars_of(key.as_str());
        let mut i: usize = 0;
        while i < self.entries.len()
            invariant
                self.entries@ == before,
                old(self).entries@ == before,
                distinct_keys(before),
                target@ == key@,
                i <= before.len(),
                forall|j: int| 0 <= j < i ==> before[j].key@ != key@,
            decreases before.len() - i,
        {
            let c = chars_of(self.entries[i].key.as_str());
            if same(&c, &target) {
                let mut out: Vec<DeviceEntry> = Vec::new();
                let mut j: usize = 0;
                while j < self.entries.len()
                    invariant
                        self.entries@ == before,
                        old(self).entries@ == before,
                        distinct_keys(before),
                        i < before.len(),
                        before[i as int].key@ == key@,
                        j <= before.len(),
                        out@.len() == j,
                        forall|x: int|
                            0 <= x < j ==> #[trigger] finished_entry(out@[x], before[x], x, i as int),
                    decreases before.len() - j,
                {
                    let st = if j == i {
                        AttachedDeviceState::Complete
                    } else {
                        self.entries[j].state
                    };
                    let ghost prev = out@;
                    out.push(DeviceEntry { key: copy_string(&self.entries[j].key), state: st });
                    proof {
                        assert forall|x: int| 0 <= x < j + 1 implies #[trigger] finished_entry(out@[x], before[x], x, i as int) by {
                            if x < j {
                                assert(out@[x] == prev[x]);
                                assert(finished_entry(prev[x], before[x], x, i as int));
                            }
                        }
                    }
                    j = j + 1;
                }
                let ghost target_map = states_of(before).insert(key@, AttachedDeviceState::Complete);
                proof {
                    assert forall|a: int, b: int| 0 <= a < b < out@.len() implies #[trigger] out@[a].key@
                        != #[trigger] out@[b].key@ by {
                        assert(finished_entry(out@[a], before[a], a, i as int));
                        assert(finished_entry(out@[b], before[b], b, i as int));
                    }
                    lemma_state_at(before, i as int);
                    assert forall|k: Seq<char>| #[trigger] has_key(out@, k) == target_map.dom().contains(k) by {
                        if has_key(out@, k) {
                            let x = choose|x: int| 0 <= x < out@.len() && #[trigger] out@[x].key@ == k;
                            assert(finished_entry(out@[x], before[x], x, i as int));
                            assert(before[x].key@ == k);
                        }
                        if has_key(before, k) {
                            let x = choose|x: int| 0 <= x < before.len() && #[trigger] before[x].key@ == k;
                            assert(finished_entry(out@[x], before[x], x, i as int));
                            assert(out@[x].key@ == k);
                        }
                        if k == key@ {
                            assert(finished_entry(out@[i as int], before[i as int], i as int, i as int));
                            assert(out@[i as int].key@ == k);
                        }
                    }
                    assert forall|k: Seq<char>| #[trigger] has_key(out@, k) implies state_at(out@, k)
                        == target_map[k] by {
                        let x = choose|x: int| 0 <= x < out@.len() && #[trigger] out@[x].key@ == k;
                        lemma_state_at(out@, x);
                        assert(finished_entry(out@[x], before[x], x, i as int));
                        lemma_state_at(before, x);
                    }
                    assert(states_of(out@) =~= target_map);
                    assert(has_key(before, key@));
                }
                self.entries = out;
                return;
            }
            i = i + 1;
        }
        proof {
            assert(!has_key(before, key@));
        }
    }

    /// The state of the device keyed `key`, if it has been seen.
    pub fn state(&self, key: &String) -> (r: Option<AttachedDeviceState>)
        ensures
            r == (if self@.dom().contains(key@) {
                Some(self@[key@])
            } else {
                None::<AttachedDeviceState>
            }),
    {
        proof {
            use_type_invariant(self);
        }
        let target = chars_of(key.as_str());
        let mut i: usize = 0;
        while i < self.entries.len()
            invariant
                target@ == key@,
                distinct_keys(self.entries@),
                i <= self.entries@.len(),
                forall|j: int| 0 <= j < i ==> self.entries@[j].key@ != key@,
            decreases self.entries@.len() - i,
        {
            let c = chars_of(self.entries[i].key.as_str());
            if same(&c, &target) {
                proof {
                    lemma_state_at(self.entries@, i as int);
                }
                return Some(self.entries[i].state);
            }
            i = i + 1;
        }
        None
    }
}

} // verus!
