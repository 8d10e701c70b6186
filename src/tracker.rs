use vstd::prelude::*;
use crate::notification::{CameraEvent, Status, status_of};

verus! {

/// One device's open event at the recorder.
#[derive(Clone, Debug)]
pub struct PendingEvent {
    pub device: String,
    pub event_id: String,
}

/// What the caller must do at the recorder for a notification.
#[derive(Clone, Debug)]
pub enum Action {
    /// Open an event for `device` with object class `kind`; once the recorder
    /// answers with an id, hand it to `Tracker::record_created`.
    Create { device: String, kind: String },
    /// Close the event `event_id`; the device's entry is already gone.
    End { event_id: String },
    /// A start for a device whose event is still open: nothing to do.
    Duplicate,
    /// An end for a device without an open event: nothing to do.
    Unmatched,
}

/// `Action` over plain sequences of characters.
pub enum Planned {
    Create(Seq<char>, Seq<char>),
    End(Seq<char>),
    Duplicate,
    Unmatched,
}

impl Action {
    pub open spec fn view(&self) -> Planned {
        match self {
            Action::Create { device, kind } => Planned::Create(device@, kind@),
            Action::End { event_id } => Planned::End(event_id@),
            Action::Duplicate => Planned::Duplicate,
            Action::Unmatched => Planned::Unmatched,
        }
    }
}

/// A notification whose status code is neither `0` nor `1`.
#[derive(Clone, Copy, Debug, PartialEq, Eq, Structural)]
pub enum TrackError {
    InvalidStatus(i32),
}

/// The decision taken for a notification, given the pending events `m`.
pub open spec fn decision(
    m: Map<Seq<char>, Seq<char>>,
    status: i32,
    device: Seq<char>,
    kind: Seq<char>,
) -> Result<Planned, TrackError> {
    match status_of(status) {
        Some(Status::Started) => if m.contains_key(device) {
            Ok(Planned::Duplicate)
        } else {
            Ok(Planned::Create(device, kind))
        },
        Some(Status::Ended) => if m.contains_key(device) {
            Ok(Planned::End(m[device]))
        } else {
            Ok(Planned::Unmatched)
        },
        None => Err(TrackError::InvalidStatus(status)),
    }
}

/// The pending events once a notification has been decided on: an end for a
/// pending device removes its entry, nothing else changes them.
pub open spec fn after_decision(
    m: Map<Seq<char>, Seq<char>>,
    status: i32,
    device: Seq<char>,
) -> Map<Seq<char>, Seq<char>> {
    if status_of(status) == Some(Status::Ended) && m.contains_key(device) {
        m.remove(device)
    } else {
        m
    }
}

/// A start for a device whose event is still open asks nothing of the
/// recorder and leaves the open events as they were.
pub proof fn lemma_duplicate_start_ignored(
    m: Map<Seq<char>, Seq<char>>,
    device: Seq<char>,
    kind: Seq<char>,
)
    requires
        m.contains_key(device),
    ensures
        decision(m, 1, device, kind) == Ok::<Planned, TrackError>(Planned::Duplicate),
        after_decision(m, 1, device) == m,
{
}

/// An end for a device without an open event asks nothing of the recorder
/// and leaves the open events as they were.
pub proof fn lemma_unmatched_end_ignored(
    m: Map<Seq<char>, Seq<char>>,
    device: Seq<char>,
    kind: Seq<char>,
)
    requires
        !m.contains_key(device),
    ensures
        decision(m, 0, device, kind) == Ok::<Planned, TrackError>(Planned::Unmatched),
        after_decision(m, 0, device) == m,
{
}

/// A status code other than `0` and `1` is refused with no call to the
/// recorder and no change to the open events.
pub proof fn lemma_invalid_status_rejected(
    m: Map<Seq<char>, Seq<char>>,
    status: i32,
    device: Seq<char>,
    kind: Seq<char>,
)
    requires
        status != 0 && status != 1,
    ensures
        decision(m, status, device, kind) == Err::<Planned, TrackError>(TrackError::InvalidStatus(status)),
        after_decision(m, status, device) == m,
{
}

/// The decisions taken for alternating start and end notifications of one
/// device, where the recorder answers the n-th create with `ids[n]`, and the
/// open events left after them.
pub open spec fn alternate(
    m: Map<Seq<char>, Seq<char>>,
    device: Seq<char>,
    kind: Seq<char>,
    ids: Seq<Seq<char>>,
) -> (Seq<Result<Planned, TrackError>>, Map<Seq<char>, Seq<char>>)
    decreases ids.len(),
{
    if ids.len() == 0 {
        (Seq::empty(), m)
    } else {
        let (acts, m1) = alternate(m, device, kind, ids.drop_last());
        let start = decision(m1, 1, device, kind);
        let m2 = match start {
            Ok(Planned::Create(d, _)) => after_decision(m1, 1, device).insert(d, ids.last()),
            _ => after_decision(m1, 1, device),
        };
        let end = decision(m2, 0, device, kind);
        (acts.push(start).push(end), after_decision(m2, 0, device))
    }
}

/// Alternating start and end notifications of a device without an open
/// event ask for exactly one create and then one end of the id it was given,
/// pair after pair, and after every pair the open events are those before it.
pub proof fn lemma_alternating_pairs(
    m: Map<Seq<char>, Seq<char>>,
    device: Seq<char>,
    kind: Seq<char>,
    ids: Seq<Seq<char>>,
)
    requires
        !m.contains_key(device),
    ensures
        alternate(m, device, kind, ids).0.len() == 2 * ids.len(),
        forall|n: int|
            0 <= n < ids.len() ==> {
                &&& #[trigger] alternate(m, device, kind, ids).0[2 * n]
                    == Ok::<Planned, TrackError>(Planned::Create(device, kind))
                &&& alternate(m, device, kind, ids).0[2 * n + 1]
                    == Ok::<Planned, TrackError>(Planned::End(ids[n]))
            },
        alternate(m, device, kind, ids).1 == m,
    decreases ids.len(),
{
    if ids.len() > 0 {
        let prev = ids.drop_last();
        lemma_alternating_pairs(m, device, kind, prev);
        let m2 = m.insert(device, ids.last());
        assert(m2.remove(device) =~= m);
        let acts = alternate(m, device, kind, ids).0;
        assert forall|n: int| 0 <= n < ids.len() implies {
            &&& #[trigger] acts[2 * n] == Ok::<Planned, TrackError>(Planned::Create(device, kind))
            &&& acts[2 * n + 1] == Ok::<Planned, TrackError>(Planned::End(ids[n]))
        } by {
            if n < prev.len() {
                assert(acts[2 * n] == alternate(m, device, kind, prev).0[2 * n]);
                assert(acts[2 * n + 1] == alternate(m, device, kind, prev).0[2 * n + 1]);
                assert(prev[n] == ids[n]);
            }
        }
    }
}

/// The open event of each device, at most one per device.
pub struct Tracker {
    entries: Vec<PendingEvent>,
    pending: Ghost<Map<Seq<char>, Seq<char>>>,
}

impl Tracker {
    /// Device name to event id of the open events.
    pub closed spec fn view(&self) -> Map<Seq<char>, Seq<char>> {
        self.pending@
    }

    pub closed spec fn wf(&self) -> bool {
        &&& forall|i: int|
            0 <= i < self.entries.len() ==> {
                &&& #[trigger] self.pending@.contains_key(self.entries[i].device@)
                &&& self.pending@[self.entries[i].device@] == self.entries[i].event_id@
            }
        &&& forall|k: Seq<char>|
            #[trigger] self.pending@.contains_key(k) ==> exists|i: int|
                0 <= i < self.entries.len() && self.entries[i].device@ == k
        &&& forall|i: int, j: int|
            0 <= i < self.entries.len() && 0 <= j < self.entries.len() && i != j
                ==> self.entries[i].device@ != self.entries[j].device@
    }

    /// A tracker with no open event.
    pub fn new() -> (r: Tracker)
        ensures
            r.wf(),
            r@ == Map::<Seq<char>, Seq<char>>::empty(),
    {
        Tracker { entries: Vec::new(), pending: Ghost(Map::empty()) }
    }

    /// Whether `device` has an open event.
    pub fn contains(&self, device: &String) -> (r: bool)
        requires
            self.wf(),
        ensures
            r == self@.contains_key(device@),
    {
        match self.position(device) {
            Some(i) => {
                assert(self.pending@.contains_key(self.entries[i as int].device@));
                true
            },
            None => false,
        }
    }

    /// The id of the open event of `device`, if any.
    pub fn event_of(&self, device: &String) -> (r: Option<String>)
        requires
            self.wf(),
        ensures
            r matches Some(id) ==> (self@.contains_key(device@) && id@ == self@[device@]),
            r is None ==> !self@.contains_key(device@),
    {
        match self.position(device) {
            Some(i) => {
                assert(self.pending@.contains_key(self.entries[i as int].device@));
                Some(self.entries[i].event_id.clone())
            },
            None => None,
        }
    }

    /// Number of open events.
    pub fn len(&self) -> (r: usize)
        requires
            self.wf(),
        ensures
            r as nat == self@.len(),
    {
        proof {
            self.lemma_len();
        }
        self.entries.len()
    }

    proof fn lemma_len(&self)
        requires
            self.wf(),
        ensures
            self.entries.len() == self@.len(),
        decreases self.entries.len(),
    {
        let keys = Seq::new(self.entries.len() as nat, |i: int| self.entries[i].device@);
        assert forall|i: int, j: int| 0 <= i < keys.len() && 0 <= j < keys.len() && i != j implies keys[i] != keys[j] by {}
        keys.unique_seq_to_set();
        assert(keys.to_set() =~= self@.dom()) by {
            assert forall|k: Seq<char>| #[trigger] self@.dom().contains(k) implies keys.to_set().contains(k) by {
                let i = choose|i: int| 0 <= i < self.entries.len() && self.entries[i].device@ == k;
                assert(keys[i] == k);
            }
        }
    }

    /// Decides what a notification asks of the recorder. An end for a device
    /// with an open event takes that event out of the tracker here, before the
    /// recorder is called; nothing else changes the tracker.
    pub fn plan(&mut self, event: &CameraEvent) -> (r: Result<Action, TrackError>)
        requires
            old(self).wf(),
        ensures
            final(self).wf(),
            final(self)@ == after_decision(old(self)@, event.status, event.device_name@),
            r matches Ok(a) ==> decision(old(self)@, event.status, event.device_name@, event.kind@)
                == Ok::<Planned, TrackError>(a@),
            r matches Err(e) ==> decision(old(self)@, event.status, event.device_name@, event.kind@)
                == Err::<Planned, TrackError>(e),
    {
        match event.status_kind() {
            Some(Status::Started) => {
                if self.contains(&event.device_name) {
                    Ok(Action::Duplicate)
                } else {
                    Ok(Action::Create { device: event.device_name.clone(), kind: event.kind.clone() })
                }
            },
            Some(Status::Ended) => match self.position(&event.device_name) {
                Some(i) => {
                    let entry = self.remove_at(i);
                    Ok(Action::End { event_id: entry.event_id })
                },
                None => Ok(Action::Unmatched),
            },
            None => Err(TrackError::InvalidStatus(event.status)),
        }
    }

    /// Records the id that the recorder gave to the new event of `device`.
    pub fn record_created(&mut self, device: String, event_id: String)
        requires
            old(self).wf(),
        ensures
            final(self).wf(),
            final(self)@ == old(self)@.insert(device@, event_id@),
    {
        let ghost dev = device@;
        let ghost id = event_id@;
        match self.position(&device) {
            Some(i) => {
                self.entries.set(i, PendingEvent { device, event_id });
                proof {
                    self.pending@ = self.pending@.insert(dev, id);
                    assert forall|j: int| 0 <= j < self.entries.len() implies {
                        &&& #[trigger] self.pending@.contains_key(self.entries[j].device@)
                        &&& self.pending@[self.entries[j].device@] == self.entries[j].event_id@
                    } by {
                        if j != i {
                            assert(old(self).pending@.contains_key(old(self).entries[j].device@));
                        }
                    }
                    assert forall|k: Seq<char>| #[trigger] self.pending@.contains_key(k) implies exists|j: int|
                        0 <= j < self.entries.len() && self.entries[j].device@ == k by {
                        if k != dev {
                            let j = choose|j: int| 0 <= j < old(self).entries.len() && old(self).entries[j].device@ == k;
                            assert(self.entries[j].device@ == k);
                        } else {
                            assert(self.entries[i as int].device@ == k);
                        }
                    }
                }
            },
            None => {
                self.entries.push(PendingEvent { device, event_id });
                proof {
                    self.pending@ = self.pending@.insert(dev, id);
                    let n = self.entries.len() - 1;
                    assert forall|k: Seq<char>| #[trigger] self.pending@.contains_key(k) implies exists|j: int|
                        0 <= j < self.entries.len() && self.entries[j].device@ == k by {
                        if k != dev {
                            let j = choose|j: int| 0 <= j < old(self).entries.len() && old(self).entries[j].device@ == k;
                            assert(self.entries[j].device@ == k);
                        } else {
                            assert(self.entries[n].device@ == k);
                        }
                    }
                    assert forall|a: int| 0 <= a < old(self).entries.len() implies
                        #[trigger] self.entries[a].device@ != dev by {
                        assert(old(self).pending@.contains_key(old(self).entries[a].device@));
                    }
                    assert forall|j: int| 0 <= j < self.entries.len() implies {
                        &&& #[trigger] self.pending@.contains_key(self.entries[j].device@)
                        &&& self.pending@[self.entries[j].device@] == self.entries[j].event_id@
                    } by {
                        if j < n {
                            assert(old(self).pending@.contains_key(old(self).entries[j].device@));
                        }
                    }
                }
            },
        }
    }

    fn remove_at(&mut self, i: usize) -> (r: PendingEvent)
        requires
            old(self).wf(),
            i < old(self).entries.len(),
        ensures
            final(self).wf(),
            r.device@ == old(self).entries[i as int].device@,
            old(self)@.contains_key(r.device@),
            r.event_id@ == old(self)@[r.device@],
            final(self)@ == old(self)@.remove(r.device@),
    {
        let r = self.entries.remove(i);
        proof {
            let dev = r.device@;
            assert(old(self).pending@.contains_key(old(self).entries[i as int].device@));
            self.pending@ = self.pending@.remove(dev);
            assert forall|j: int| 0 <= j < self.entries.len() implies {
                &&& #[trigger] self.pending@.contains_key(self.entries[j].device@)
                &&& self.pending@[self.entries[j].device@] == self.entries[j].event_id@
            } by {
                let o = if j < i { j } else { j + 1 };
                assert(self.entries[j] == old(self).entries[o]);
                assert(old(self).pending@.contains_key(old(self).entries[o].device@));
            }
            assert forall|k: Seq<char>| #[trigger] self.pending@.contains_key(k) implies exists|j: int|
                0 <= j < self.entries.len() && self.entries[j].device@ == k by {
                let o = choose|o: int| 0 <= o < old(self).entries.len() && old(self).entries[o].device@ == k;
                assert(o != i);
                let j = if o < i { o } else { o - 1 };
                assert(self.entries[j] == old(self).entries[o]);
            }
            assert forall|a: int, b: int|
                0 <= a < self.entries.len() && 0 <= b < self.entries.len() && a != b
                implies self.entries[a].device@ != self.entries[b].device@ by {
                let oa = if a < i { a } else { a + 1 };
                let ob = if b < i { b } else { b + 1 };
                assert(self.entries[a] == old(self).entries[oa]);
                assert(self.entries[b] == old(self).entries[ob]);
            }
        }
        r
    }

    fn position(&self, device: &String) -> (r: Option<usize>)
        requires
            self.wf(),
        ensures
            r matches Some(i) ==> (i < self.entries.len() && self.entries[i as int].device@ == device@),
            r is None ==> !self@.contains_key(device@),
    {
        let mut i: usize = 0;
        while i < self.entries.len()
            invariant
                i <= self.entries.len(),
                forall|j: int| 0 <= j < i ==> self.entries[j].device@ != device@,
            decreases self.entries.len() - i,
        {
            if self.entries[i].device == *device {
                return Some(i);
            }
            i = i + 1;
        }
        Option::None
    }
}

} // verus!
