//! Ring of serialized simulation states, one slot per retained tick.
use vstd::prelude::*;
use crate::error::SessionError;

verus! {

/// The largest prediction window a session accepts; it bounds the ring's
/// memory to this many snapshots plus one.
pub const MAX_PREDICTION_WINDOW: u64 = 128;

/// The serialized state before `tick` ran, with its checksum.
pub struct Snapshot {
    pub tick: u64,
    pub data: Vec<u8>,
    pub checksum: u64,
}

/// Holds the snapshots of the ticks within `window` of the latest saved
/// tick, in a ring of `window + 1` slots indexed by tick modulo its length.
pub struct SnapshotStore {
    slots: Vec<Option<Snapshot>>,
    window: u64,
    latest: Option<u64>,
}

/// What a restore of `tick` returns on the retained map `m`.
pub open spec fn restore_spec(m: Map<u64, (Seq<u8>, u64)>, tick: u64) -> Result<
    Seq<u8>,
    SessionError,
> {
    if m.contains_key(tick) {
        Ok(m[tick].0)
    } else {
        Err(SessionError::SnapshotMissing { tick })
    }
}

/// The latest tick after a save of `tick`.
pub open spec fn latest_after(latest: Option<u64>, tick: u64) -> u64 {
    match latest {
        Some(l) => if l < tick {
            tick
        } else {
            l
        },
        None => tick,
    }
}

/// Whether a save of `tick` is refused: it lies before the retained window.
pub open spec fn save_refused(latest: Option<u64>, window: u64, tick: u64) -> bool {
    match latest {
        Some(l) => tick < l && l - tick > window,
        None => false,
    }
}

/// The retained map after a save of `(data, checksum)` at `tick`: the new
/// entry, and the old ones still within the window of the new latest tick.
pub open spec fn after_save(
    m: Map<u64, (Seq<u8>, u64)>,
    latest: Option<u64>,
    window: u64,
    tick: u64,
    data: Seq<u8>,
    checksum: u64,
) -> Map<u64, (Seq<u8>, u64)> {
    Map::new(
        |t: u64|
            t == tick || (m.contains_key(t) && latest_after(latest, tick) - t <= window),
        |t: u64|
            if t == tick {
                (data, checksum)
            } else {
                m[t]
            },
    )
}

impl SnapshotStore {
    pub closed spec fn window_spec(&self) -> u64 {
        self.window
    }

    pub closed spec fn latest_spec(&self) -> Option<u64> {
        self.latest
    }

    pub closed spec fn slot_holds(&self, t: u64) -> bool {
        &&& self.slots@[slot_of(t, self.window)] is Some
        &&& self.slots@[slot_of(t, self.window)]->Some_0.tick == t
    }

    pub closed spec fn retained(&self, t: u64) -> bool {
        &&& self.latest is Some
        &&& t <= self.latest->Some_0
        &&& self.latest->Some_0 - t <= self.window
        &&& self.slot_holds(t)
    }

    /// The retained snapshots: tick to (bytes, checksum).
    pub closed spec fn view(&self) -> Map<u64, (Seq<u8>, u64)> {
        Map::new(
            |t: u64| self.retained(t),
            |t: u64|
                {
                    let s = self.slots@[slot_of(t, self.window)]->Some_0;
                    (s.data@, s.checksum)
                },
        )
    }

    pub closed spec fn wf(&self) -> bool {
        &&& self.window <= MAX_PREDICTION_WINDOW
        &&& self.slots@.len() == self.window + 1
        &&& forall|i: int|
            0 <= i < self.slots@.len() && #[trigger] self.slots@[i] is Some ==> {
                &&& self.latest is Some
                &&& self.slots@[i]->Some_0.tick <= self.latest->Some_0
            }
    }

    /// An empty ring for snapshots within `window` ticks of the latest.
    pub fn new(window: u64) -> (r: SnapshotStore)
        requires
            window <= MAX_PREDICTION_WINDOW,
        ensures
            r.wf(),
            r.window_spec() == window,
            r.latest_spec() is None,
            r@ == Map::<u64, (Seq<u8>, u64)>::empty(),
    {
        let mut slots: Vec<Option<Snapshot>> = Vec::new();
        let cap: usize = (window + 1) as usize;
        while slots.len() < cap
            invariant
                cap == window + 1,
                slots@.len() <= cap,
                forall|i: int| 0 <= i < slots@.len() ==> #[trigger] slots@[i] is None,
            decreases cap - slots@.len(),
        {
            slots.push(None);
        }
        let r = SnapshotStore { slots, window, latest: None };
        assert(r@ =~= Map::<u64, (Seq<u8>, u64)>::empty());
        r
    }

    /// The configured window.
    pub fn window(&self) -> (r: u64)
        ensures
            r == self.window_spec(),
    {
        self.window
    }

    /// The latest tick saved, if any.
    pub fn latest(&self) -> (r: Option<u64>)
        ensures
            r == self.latest_spec(),
    {
        self.latest
    }

    /// Stores `data` as the state of `tick`, replacing an earlier snapshot of
    /// the same tick and evicting those that fall out of the window.
    pub fn save(&mut self, tick: u64, data: Vec<u8>, checksum: u64) -> (r: Result<(), SessionError>)
        requires
            old(self).wf(),
        ensures
            final(self).wf(),
            final(self).window_spec() == old(self).window_spec(),
            save_refused(old(self).latest_spec(), old(self).window_spec(), tick) ==> {
                &&& r == Err::<(), SessionError>(SessionError::SaveOutsideWindow { tick })
                &&& *final(self) == *old(self)
            },
            !save_refused(old(self).latest_spec(), old(self).window_spec(), tick) ==> {
                &&& r is Ok
                &&& final(self).latest_spec() == Some(latest_after(old(self).latest_spec(), tick))
                &&& final(self)@ == after_save(
                    old(self)@,
                    old(self).latest_spec(),
                    old(self).window_spec(),
                    tick,
                    data@,
                    checksum,
                )
            },
    {
        if let Some(l) = self.latest {
            if tick < l && l - tick > self.window {
                return Err(SessionError::SaveOutsideWindow { tick });
            }
        }
        let ghost old_self = *self;
        let ghost dv = data@;
        let new_latest: u64 = match self.latest {
            Some(l) => if l < tick {
                tick
            } else {
                l
            },
            None => tick,
        };
        let idx: usize = (tick % (self.window + 1)) as usize;
        self.slots.set(idx, Some(Snapshot { tick, data, checksum }));
        self.latest = Some(new_latest);
        proof {
            let m = after_save(old_self@, old_self.latest, old_self.window, tick, dv, checksum);
            assert forall|t: u64| #[trigger] self.retained(t) == m.contains_key(t) by {
                if t != tick {
                    if self.retained(t) {
                        assert(old_self.slot_holds(t)) by {
                            if slot_of(t, self.window) == slot_of(tick, self.window) {
                            } else {
                                assert(self.slots@[slot_of(t, self.window)] == old_self.slots@[slot_of(t, self.window)]);
                            }
                        }
                        assert(old_self.retained(t));
                    }
                    if m.contains_key(t) {
                        lemma_distinct_in_window(t, tick, new_latest, self.window);
                        assert(self.slots@[slot_of(t, self.window)] == old_self.slots@[slot_of(t, self.window)]);
                    }
                }
            }
            assert(self@ =~= m);
        }
        Ok(())
    }

    /// The bytes saved for `tick`, or `SnapshotMissing` where it is not retained.
    pub fn restore(&self, tick: u64) -> (r: Result<Vec<u8>, SessionError>)
        requires
            self.wf(),
        ensures
            match r {
                Ok(d) => restore_spec(self@, tick) == Ok::<Seq<u8>, SessionError>(d@),
                Err(e) => restore_spec(self@, tick) == Err::<Seq<u8>, SessionError>(e),
            },
    {
        match self.checksum_and_slot(tick) {
            Some(i) => {
                let d = self.slots[i].as_ref().unwrap().data.clone();
                Ok(d)
            },
            None => Err(SessionError::SnapshotMissing { tick }),
        }
    }

    /// The checksum saved with `tick`, where it is retained.
    pub fn checksum(&self, tick: u64) -> (r: Option<u64>)
        requires
            self.wf(),
        ensures
            r is Some <==> self@.contains_key(tick),
            r is Some ==> r->Some_0 == self@[tick].1,
    {
        match self.checksum_and_slot(tick) {
            Some(i) => Some(self.slots[i].as_ref().unwrap().checksum),
            None => None,
        }
    }

    fn checksum_and_slot(&self, tick: u64) -> (r: Option<usize>)
        requires
            self.wf(),
        ensures
            r is Some <==> self.retained(tick),
            r is Some ==> r->Some_0 == slot_of(tick, self.window),
            r is Some ==> r->Some_0 < self.slots@.len(),
    {
        match self.latest {
            None => None,
            Some(l) => {
                if tick > l || l - tick > self.window {
                    return None;
                }
                let idx: usize = (tick % (self.window + 1)) as usize;
                match &self.slots[idx] {
                    Some(s) => if s.tick == tick {
                        Some(idx)
                    } else {
                        None
                    },
                    None => None,
                }
            },
        }
    }
}

/// The ring slot of `t` for a window of `w`.
pub open spec fn slot_of(t: u64, w: u64) -> int {
    (t as int) % (w as int + 1)
}

proof fn lemma_distinct_in_window(a: u64, b: u64, top: u64, w: u64)
    requires
        a != b,
        a <= top,
        b <= top,
        top - a <= w,
        top - b <= w,
    ensures
        slot_of(a, w) != slot_of(b, w),
{
    let c = (w + 1) as int;
    vstd::arithmetic::div_mod::lemma_fundamental_div_mod(a as int, c);
    vstd::arithmetic::div_mod::lemma_fundamental_div_mod(b as int, c);
    if slot_of(a, w) == slot_of(b, w) {
        let qa = a as int / c;
        let qb = b as int / c;
        assert(a as int - b as int == c * (qa - qb)) by (nonlinear_arith)
            requires
                a as int == c * qa + slot_of(a, w),
                b as int == c * qb + slot_of(b, w),
                slot_of(a, w) == slot_of(b, w),
        ;
        assert(-c < (a as int) - (b as int) && (a as int) - (b as int) < c);
        assert(qa - qb == 0) by (nonlinear_arith)
            requires
                a as int - b as int == c * (qa - qb),
                -c < (a as int) - (b as int),
                (a as int) - (b as int) < c,
                a as int != b as int,
                c > 0,
        ;
    }
}

/// A snapshot read back right after it was saved holds the saved bytes.
pub proof fn lemma_restore_after_save(
    m: Map<u64, (Seq<u8>, u64)>,
    latest: Option<u64>,
    window: u64,
    tick: u64,
    data: Seq<u8>,
    checksum: u64,
)
    ensures
        restore_spec(after_save(m, latest, window, tick, data, checksum), tick) == Ok::<
            Seq<u8>,
            SessionError,
        >(data),
{
}

/// A tick more than `window` ticks older than the latest saved one is never
/// retained: restoring it fails with `SnapshotMissing`.
pub proof fn lemma_evicted_tick_missing(store: &SnapshotStore, tick: u64)
    requires
        store.wf(),
        store.latest_spec() is Some,
        tick < store.latest_spec()->Some_0,
        store.latest_spec()->Some_0 - tick > store.window_spec(),
    ensures
        restore_spec(store@, tick) == Err::<Seq<u8>, SessionError>(
            SessionError::SnapshotMissing { tick },
        ),
{
}

} // verus!
