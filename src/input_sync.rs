//! Per-tick inputs of every player: confirmed samples as they arrive,
//! predictions for the missing ones, and detection of wrong predictions.
use vstd::prelude::*;
use crate::codec::InputSample;

verus! {

/// Whether a player's sample for a tick is known or guessed.
#[derive(Clone, Copy, Debug, PartialEq, Eq, Structural)]
pub enum InputStatus {
    Confirmed,
    Predicted,
}

/// One player's sample for one tick, with its status.
#[derive(Clone, Copy, Debug, PartialEq, Eq, Structural)]
pub struct PlayerInput {
    pub sample: InputSample,
    pub status: InputStatus,
}

/// What became of an offered confirmed sample.
#[derive(Clone, Copy, Debug, PartialEq, Eq, Structural)]
pub enum InputOutcome {
    /// Stored; the tick had not run yet or had run with this very sample.
    Accepted,
    /// Stored; the tick had run with another sample and must be replayed.
    Mispredicted,
    /// The tick's sample was already confirmed; nothing changed.
    Duplicate,
    /// An earlier tick of the player is still missing; nothing changed.
    Gap,
}

/// The sample used for a player at tick `t`: the confirmed one where it has
/// arrived, else the most recent confirmed one repeated, else no control.
pub open spec fn predict(conf: Seq<InputSample>, t: int) -> InputSample {
    if 0 <= t < conf.len() {
        conf[t]
    } else if conf.len() > 0 {
        conf.last()
    } else {
        InputSample { bits: 0 }
    }
}

/// The frame the synchronizer hands out for tick `t`, one sample per player.
pub open spec fn frame_of(conf: Seq<Seq<InputSample>>, t: int) -> Seq<InputSample> {
    Seq::new(conf.len(), |p: int| predict(conf[p], t))
}

/// Every confirmed sample of a tick that ran, before the first wrong
/// prediction, is the sample the tick ran with.
pub open spec fn consistent(
    conf: Seq<Seq<InputSample>>,
    frames: Seq<Seq<InputSample>>,
    first_incorrect: Option<u64>,
) -> bool {
    forall|t: int, p: int|
        0 <= t < frames.len() && 0 <= p < conf.len() && t < conf[p].len() && (
        first_incorrect is None || t < first_incorrect->Some_0) ==> #[trigger] frames[t][p]
            == #[trigger] conf[p][t]
}

/// The frames made only of confirmed samples, for ticks `0..t`.
pub open spec fn confirmed_frames(conf: Seq<Seq<InputSample>>, t: nat) -> Seq<Seq<InputSample>> {
    Seq::new(t, |k: int| Seq::new(conf.len(), |p: int| conf[p][k]))
}

/// The frames after a replay from `from`: those before it kept, the rest
/// recomputed from what is known now.
pub open spec fn replayed(
    conf: Seq<Seq<InputSample>>,
    frames: Seq<Seq<InputSample>>,
    from: int,
) -> Seq<Seq<InputSample>> {
    Seq::new(frames.len(), |t: int| if t < from { frames[t] } else { frame_of(conf, t) })
}

/// The state reached from `s0` by running `step` over `frames` in order.
pub open spec fn run(
    step: spec_fn(Seq<u8>, Seq<InputSample>) -> Seq<u8>,
    s0: Seq<u8>,
    frames: Seq<Seq<InputSample>>,
) -> Seq<u8>
    decreases frames.len(),
{
    if frames.len() == 0 {
        s0
    } else {
        step(run(step, s0, frames.drop_last()), frames.last())
    }
}

/// The effect of offering the confirmed `sample` of `player` at `tick`:
/// old samples and samples after a gap change nothing; the next one is
/// appended, and marks its tick for replay where the tick ran with another
/// sample.
pub open spec fn input_added(
    before: InputSynchronizer,
    after: InputSynchronizer,
    player: usize,
    tick: u64,
    sample: InputSample,
    r: InputOutcome,
) -> bool {
    let conf = before.confirmed_view();
    let frames = before.frames();
    let n = conf[player as int].len();
    let fi = before.first_incorrect_spec();
    &&& after.frames() == frames
    &&& if tick < n {
        &&& r == InputOutcome::Duplicate
        &&& after == before
    } else if tick > n || n + 1 >= u64::MAX {
        &&& r == InputOutcome::Gap
        &&& after == before
    } else {
        let wrong = tick < frames.len() && frames[tick as int][player as int] != sample;
        &&& after.confirmed_view() == conf.update(player as int, conf[player as int].push(sample))
        &&& r == (if wrong {
            InputOutcome::Mispredicted
        } else {
            InputOutcome::Accepted
        })
        &&& after.first_incorrect_spec() == (if wrong {
            match fi {
                Some(f) => if f < tick {
                    Some(f)
                } else {
                    Some(tick)
                },
                None => Some(tick),
            }
        } else {
            fi
        })
    }
}

/// Confirmed samples and the frames the ticks ran with. Ticks before
/// `base`, which no rollback can reach any more, are dropped from memory;
/// the ghost histories keep the whole record that the contracts speak of.
pub struct InputSynchronizer {
    base: u64,
    confirmed: Vec<Vec<InputSample>>,
    used: Vec<Vec<InputSample>>,
    first_incorrect: Option<u64>,
    history: Ghost<Seq<Seq<InputSample>>>,
    frame_history: Ghost<Seq<Seq<InputSample>>>,
}

impl InputSynchronizer {
    /// Confirmed samples: player, then tick from 0 on without gaps.
    pub closed spec fn confirmed_view(&self) -> Seq<Seq<InputSample>> {
        self.history@
    }

    /// The frames the ticks that ran were simulated with, by tick.
    pub closed spec fn frames(&self) -> Seq<Seq<InputSample>> {
        self.frame_history@
    }

    /// The earliest tick that ran with a wrong prediction, if any.
    pub closed spec fn first_incorrect_spec(&self) -> Option<u64> {
        self.first_incorrect
    }

    /// The first tick still held in memory.
    pub closed spec fn base_spec(&self) -> u64 {
        self.base
    }

    /// The stored rows are the histories from `base` on.
    pub closed spec fn inv(&self) -> bool {
        &&& self.confirmed@.len() == self.history@.len()
        &&& forall|p: int|
            0 <= p < self.confirmed@.len() ==> #[trigger] self.confirmed@[p]@ == self.history@[p].subrange(
                self.base as int,
                self.history@[p].len() as int,
            )
        &&& self.base + self.used@.len() == self.frame_history@.len()
        &&& forall|k: int|
            0 <= k < self.used@.len() ==> #[trigger] self.used@[k]@ == self.frame_history@[self.base
                + k]
    }

    pub open spec fn num_players_spec(&self) -> nat {
        self.confirmed_view().len()
    }

    /// The next tick to run.
    pub open spec fn frontier_spec(&self) -> nat {
        self.frames().len()
    }

    pub open spec fn wf(&self) -> bool {
        let conf = self.confirmed_view();
        let frames = self.frames();
        let base = self.base_spec();
        &&& self.inv()
        &&& conf.len() > 0
        &&& frames.len() < u64::MAX
        &&& base <= frames.len()
        &&& forall|p: int|
            0 <= p < conf.len() ==> #[trigger] conf[p].len() < u64::MAX && base <= conf[p].len() && (
            base > 0 ==> base < conf[p].len())
        &&& forall|t: int| 0 <= t < frames.len() ==> #[trigger] frames[t].len() == conf.len()
        &&& (self.first_incorrect_spec() matches Some(fi) ==> base <= fi && fi < frames.len())
        &&& consistent(conf, frames, self.first_incorrect_spec())
    }

    proof fn lemma_row(&self, p: int)
        requires
            self.inv(),
            0 <= p < self.confirmed@.len(),
            self.base <= self.history@[p].len(),
        ensures
            self.confirmed@[p]@.len() == self.history@[p].len() - self.base,
            forall|k: int|
                0 <= k < self.confirmed@[p]@.len() ==> #[trigger] self.confirmed@[p]@[k]
                    == self.history@[p][self.base + k],
    {
        assert(self.confirmed@[p]@ == self.history@[p].subrange(
            self.base as int,
            self.history@[p].len() as int,
        ));
    }

    /// A synchronizer for `num_players` players at tick 0.
    pub fn new(num_players: usize) -> (r: InputSynchronizer)
        requires
            num_players > 0,
        ensures
            r.wf(),
            r.num_players_spec() == num_players,
            r.frontier_spec() == 0,
            r.base_spec() == 0,
            r.first_incorrect_spec() is None,
            forall|p: int| 0 <= p < num_players ==> (#[trigger] r.confirmed_view()[p]).len() == 0,
    {
        let mut confirmed: Vec<Vec<InputSample>> = Vec::new();
        while confirmed.len() < num_players
            invariant
                confirmed@.len() <= num_players,
                forall|p: int| 0 <= p < confirmed@.len() ==> (#[trigger] confirmed@[p])@.len() == 0,
            decreases num_players - confirmed@.len(),
        {
            confirmed.push(Vec::new());
        }
        let ghost h = Seq::new(num_players as nat, |p: int| Seq::<InputSample>::empty());
        let r = InputSynchronizer {
            base: 0,
            confirmed,
            used: Vec::new(),
            first_incorrect: None,
            history: Ghost(h),
            frame_history: Ghost(Seq::empty()),
        };
        proof {
            assert forall|p: int| 0 <= p < r.confirmed@.len() implies #[trigger] r.confirmed@[p]@
                == r.history@[p].subrange(0, r.history@[p].len() as int) by {
                assert(r.confirmed@[p]@ =~= r.history@[p].subrange(0, 0));
            }
        }
        r
    }

    pub fn num_players(&self) -> (r: usize)
        requires
            self.wf(),
        ensures
            r == self.num_players_spec(),
    {
        self.confirmed.len()
    }

    /// The next tick to run.
    pub fn frontier(&self) -> (r: u64)
        requires
            self.wf(),
        ensures
            r == self.frontier_spec(),
    {
        self.base + self.used.len() as u64
    }

    /// The first tick still held in memory.
    pub fn base(&self) -> (r: u64)
        ensures
            r == self.base_spec(),
    {
        self.base
    }

    /// The earliest tick that ran with a wrong prediction, if any.
    pub fn first_incorrect(&self) -> (r: Option<u64>)
        ensures
            r == self.first_incorrect_spec(),
    {
        self.first_incorrect
    }

    /// How many leading ticks of `player` are confirmed.
    pub fn confirmed_count(&self, player: usize) -> (r: u64)
        requires
            self.wf(),
            player < self.num_players_spec(),
        ensures
            r == self.confirmed_view()[player as int].len(),
    {
        proof {
            self.lemma_row(player as int);
        }
        self.base + self.confirmed[player].len() as u64
    }

    /// The fewest confirmed ticks over all players.
    pub fn min_confirmed(&self) -> (r: u64)
        requires
            self.wf(),
        ensures
            forall|p: int| 0 <= p < self.num_players_spec() ==> r <= (#[trigger] self.confirmed_view()[p]).len(),
            exists|p: int| 0 <= p < self.num_players_spec() && r == (#[trigger] self.confirmed_view()[p]).len(),
    {
        let ghost conf = self.confirmed_view();
        let mut m: u64 = self.confirmed_count(0);
        let ghost mut w: int = 0;
        let mut p: usize = 1;
        while p < self.confirmed.len()
            invariant
                self.wf(),
                conf == self.confirmed_view(),
                1 <= p <= conf.len(),
                0 <= w < p,
                m == conf[w].len(),
                forall|q: int| 0 <= q < p ==> m <= (#[trigger] conf[q]).len(),
            decreases conf.len() - p,
        {
            let c: u64 = self.confirmed_count(p);
            if c < m {
                m = c;
                proof {
                    w = p as int;
                }
            }
            p = p + 1;
        }
        m
    }

    /// Offers the confirmed sample of `player` at `tick`. Samples are taken
    /// in tick order; one for a tick that already ran is compared with the
    /// sample the tick ran with, and a difference marks that tick for replay.
    pub fn add_input(&mut self, player: usize, tick: u64, sample: InputSample) -> (r: InputOutcome)
        requires
            old(self).wf(),
            player < old(self).num_players_spec(),
        ensures
            final(self).wf(),
            final(self).base_spec() == old(self).base_spec(),
            input_added(*old(self), *final(self), player, tick, sample, r),
    {
        let n: u64 = self.confirmed_count(player);
        if tick < n {
            return InputOutcome::Duplicate;
        }
        if tick > n || n + 1 >= u64::MAX {
            return InputOutcome::Gap;
        }
        let ghost conf = self.confirmed_view();
        let ghost frames = self.frames();
        let ghost fi = self.first_incorrect;
        let ghost old_self = *self;
        let mut wrong = false;
        let k: u64 = tick - self.base;
        if k < self.used.len() as u64 {
            assert(self.used@[k as int]@ == frames[tick as int]);
            wrong = self.used[k as usize][player] != sample;
        }
        let mut row = self.confirmed.remove(player);
        row.push(sample);
        self.confirmed.insert(player, row);
        self.history = Ghost(conf.update(player as int, conf[player as int].push(sample)));
        if wrong {
            self.first_incorrect = match self.first_incorrect {
                Some(f) => if f < tick {
                    Some(f)
                } else {
                    Some(tick)
                },
                None => Some(tick),
            };
        }
        proof {
            let conf2 = self.confirmed_view();
            assert forall|p: int| 0 <= p < self.confirmed@.len() implies #[trigger] self.confirmed@[p]@
                == self.history@[p].subrange(self.base as int, self.history@[p].len() as int) by {
                assert(old_self.confirmed@[p]@ == conf[p].subrange(
                    self.base as int,
                    conf[p].len() as int,
                ));
                if p == player as int {
                    assert(self.confirmed@[p]@ =~= self.history@[p].subrange(
                        self.base as int,
                        self.history@[p].len() as int,
                    ));
                } else {
                    assert(self.confirmed@[p] == old_self.confirmed@[p]);
                }
            }
            assert forall|t: int, p: int|
                0 <= t < frames.len() && 0 <= p < conf2.len() && t < conf2[p].len() && (
                self.first_incorrect is None || t < self.first_incorrect->Some_0) implies #[trigger] frames[t][p]
                    == #[trigger] conf2[p][t] by {
                if p == player as int && t == tick as int {
                } else {
                    assert(conf2[p][t] == conf[p][t]);
                }
            }
        }
        if wrong {
            InputOutcome::Mispredicted
        } else {
            InputOutcome::Accepted
        }
    }

    /// Computes the frame of tick `t` from what is known now.
    fn compute_frame(&self, t: u64) -> (r: Vec<InputSample>)
        requires
            self.wf(),
            self.base_spec() <= t,
        ensures
            r@ == frame_of(self.confirmed_view(), t as int),
    {
        let ghost conf = self.confirmed_view();
        let mut frame: Vec<InputSample> = Vec::new();
        let k: u64 = t - self.base;
        let mut p: usize = 0;
        while p < self.confirmed.len()
            invariant
                self.wf(),
                conf == self.confirmed_view(),
                k == t - self.base,
                p <= conf.len(),
                frame@ =~= frame_of(conf, t as int).take(p as int),
            decreases conf.len() - p,
        {
            proof {
                self.lemma_row(p as int);
            }
            let row = &self.confirmed[p];
            let s = if k < row.len() as u64 {
                row[k as usize]
            } else if row.len() > 0 {
                row[row.len() - 1]
            } else {
                InputSample { bits: 0 }
            };
            frame.push(s);
            p = p + 1;
        }
        assert(frame@ =~= frame_of(conf, t as int));
        frame
    }

    /// Runs the next tick: records the frame it is simulated with.
    pub fn record_frame(&mut self) -> (r: u64)
        requires
            old(self).wf(),
            old(self).frontier_spec() + 1 < u64::MAX,
        ensures
            final(self).wf(),
            r == old(self).frontier_spec(),
            final(self).base_spec() == old(self).base_spec(),
            final(self).confirmed_view() == old(self).confirmed_view(),
            final(self).first_incorrect_spec() == old(self).first_incorrect_spec(),
            final(self).frames() == old(self).frames().push(
                frame_of(old(self).confirmed_view(), r as int),
            ),
    {
        let t: u64 = self.frontier();
        let frame = self.compute_frame(t);
        let ghost conf = self.confirmed_view();
        let ghost frames = self.frames();
        let ghost fv = frame@;
        self.used.push(frame);
        self.frame_history = Ghost(frames.push(fv));
        proof {
            assert forall|k: int| 0 <= k < self.used@.len() implies #[trigger] self.used@[k]@
                == self.frame_history@[self.base + k] by {
                if k < self.used@.len() - 1 {
                    assert(self.used@[k] == old(self).used@[k]);
                }
            }
        }
        t
    }

    /// Replays the ticks from `from` on: each is given the frame computed
    /// from what is known now, and no wrong prediction remains.
    pub fn replay_from(&mut self, from: u64)
        requires
            old(self).wf(),
            old(self).base_spec() <= from <= old(self).frontier_spec(),
            old(self).first_incorrect_spec() matches Some(fi) ==> from <= fi,
        ensures
            final(self).wf(),
            final(self).base_spec() == old(self).base_spec(),
            final(self).confirmed_view() == old(self).confirmed_view(),
            final(self).first_incorrect_spec() is None,
            final(self).frames() == replayed(
                old(self).confirmed_view(),
                old(self).frames(),
                from as int,
            ),
    {
        let ghost conf = self.confirmed_view();
        let ghost frames0 = self.frames();
        let len: usize = self.used.len();
        let mut i: usize = (from - self.base) as usize;
        while i < len
            invariant
                from - self.base <= i <= len,
                self.base == old(self).base,
                self.base + len == frames0.len(),
                conf == self.confirmed_view(),
                self.first_incorrect == old(self).first_incorrect,
                self.frames().len() == frames0.len(),
                forall|k: int|
                    0 <= k < frames0.len() ==> #[trigger] self.frames()[k] == (if k < from || k
                        >= self.base + i {
                        frames0[k]
                    } else {
                        frame_of(conf, k)
                    }),
                old(self).wf(),
                self.wf(),
            decreases len - i,
        {
            let t: u64 = self.base + i as u64;
            let frame = self.compute_frame(t);
            let ghost before = self.frames();
            let ghost fv = frame@;
            let ghost used0 = self.used@;
            self.used.set(i, frame);
            self.frame_history = Ghost(before.update(t as int, fv));
            proof {
                let fs = self.frames();
                assert forall|k: int| 0 <= k < self.used@.len() implies #[trigger] self.used@[k]@
                    == self.frame_history@[self.base + k] by {
                    if k != i {
                        assert(self.used@[k] == used0[k]);
                    }
                }
                assert forall|k: int| 0 <= k < frames0.len() implies #[trigger] fs[k] == (if k
                    < from || k >= self.base + i + 1 {
                    frames0[k]
                } else {
                    frame_of(conf, k)
                }) by {
                    if k != t {
                        assert(fs[k] == before[k]);
                    }
                }
                assert forall|t2: int, p: int|
                    0 <= t2 < fs.len() && 0 <= p < conf.len() && t2 < conf[p].len() && (
                    self.first_incorrect is None || t2 < self.first_incorrect->Some_0) implies #[trigger] fs[t2][p]
                        == #[trigger] conf[p][t2] by {
                    if t2 != t as int {
                        assert(fs[t2] == before[t2]);
                    }
                }
            }
            i = i + 1;
        }
        self.first_incorrect = None;
        proof {
            let fs = self.frames();
            assert(fs =~= replayed(conf, frames0, from as int));
            assert forall|t2: int, p: int|
                0 <= t2 < fs.len() && 0 <= p < conf.len() && t2 < conf[p].len() implies #[trigger] fs[t2][p]
                    == #[trigger] conf[p][t2] by {
                assert(fs[t2] == if t2 < from { frames0[t2] } else { frame_of(conf, t2) });
                if t2 < from {
                    assert(frames0[t2][p] == conf[p][t2]);
                }
            }
        }
    }

    /// Drops from memory every tick before `to`. The record the contracts
    /// speak of is unchanged; only frames from `to` on can be read or
    /// replayed afterwards.
    pub fn discard_before(&mut self, to: u64)
        requires
            old(self).wf(),
            old(self).base_spec() <= to <= old(self).frontier_spec(),
            forall|p: int|
                0 <= p < old(self).num_players_spec() ==> to < (
                #[trigger] old(self).confirmed_view()[p]).len(),
            old(self).first_incorrect_spec() matches Some(fi) ==> to <= fi,
        ensures
            final(self).wf(),
            final(self).base_spec() == to,
            final(self).confirmed_view() == old(self).confirmed_view(),
            final(self).frames() == old(self).frames(),
            final(self).first_incorrect_spec() == old(self).first_incorrect_spec(),
    {
        let ulen: usize = self.used.len();
        let k: usize = (to - self.base) as usize;
        assert(k as int == to - self.base && k <= ulen);
        let ghost conf = self.confirmed_view();
        let n: usize = self.confirmed.len();
        let mut p: usize = 0;
        while p < n
            invariant
                n == self.confirmed@.len(),
                n == conf.len(),
                conf == self.history@,
                p <= n,
                k == to - self.base,
                self.base == old(self).base,
                self.used == old(self).used,
                self.frame_history == old(self).frame_history,
                self.first_incorrect == old(self).first_incorrect,
                forall|q: int|
                    0 <= q < n ==> #[trigger] self.confirmed@[q]@ == conf[q].subrange(
                        (if q < p {
                            to
                        } else {
                            self.base
                        }) as int,
                        conf[q].len() as int,
                    ),
                forall|q: int| 0 <= q < n ==> to < (#[trigger] conf[q]).len(),
            decreases n - p,
        {
            let mut row = self.confirmed.remove(p);
            assert(row@ == conf[p as int].subrange(self.base as int, conf[p as int].len() as int));
            let tail = row.split_off(k);
            let ghost prev = self.confirmed@;
            self.confirmed.insert(p, tail);
            proof {
                assert(tail@ =~= conf[p as int].subrange(to as int, conf[p as int].len() as int));
                assert forall|q: int|
                    0 <= q < n implies #[trigger] self.confirmed@[q]@ == conf[q].subrange(
                    (if q < p + 1 {
                        to
                    } else {
                        self.base
                    }) as int,
                    conf[q].len() as int,
                ) by {
                    if q < p {
                        assert(self.confirmed@[q] == prev[q]);
                    } else if q > p {
                        assert(self.confirmed@[q] == prev[q - 1]);
                    }
                }
            }
            p = p + 1;
        }
        let kept = self.used.split_off(k);
        let ghost old_used = self.used@;
        self.used = kept;
        self.base = to;
        proof {
            assert forall|j: int| 0 <= j < self.used@.len() implies #[trigger] self.used@[j]@
                == self.frame_history@[self.base + j] by {
                assert(self.used@[j] == old(self).used@[j + k]);
            }
        }
    }

    /// The frame tick `t` ran with, each sample marked confirmed where the
    /// player's sample for `t` has arrived.
    pub fn frame(&self, t: u64) -> (r: Vec<PlayerInput>)
        requires
            self.wf(),
            self.base_spec() <= t < self.frontier_spec(),
        ensures
            r@.len() == self.num_players_spec(),
            forall|p: int|
                0 <= p < r@.len() ==> {
                    &&& (#[trigger] r@[p]).sample == self.frames()[t as int][p]
                    &&& (r@[p].status == InputStatus::Confirmed <==> t
                        < self.confirmed_view()[p].len())
                },
    {
        let ghost conf = self.confirmed_view();
        let ghost frames = self.frames();
        let ulen: usize = self.used.len();
        let ki: usize = (t - self.base) as usize;
        assert(ki as int == t - self.base && ki < ulen);
        assert(self.used@[ki as int]@ == frames[t as int]);
        let row = &self.used[ki];
        assert(row@.len() == conf.len());
        let mut out: Vec<PlayerInput> = Vec::new();
        let mut p: usize = 0;
        while p < self.confirmed.len()
            invariant
                self.wf(),
                conf == self.confirmed_view(),
                frames == self.frames(),
                row@ == frames[t as int],
                row@.len() == conf.len(),
                p <= conf.len(),
                out@.len() == p,
                forall|q: int|
                    0 <= q < p ==> {
                        &&& (#[trigger] out@[q]).sample == frames[t as int][q]
                        &&& (out@[q].status == InputStatus::Confirmed <==> t < conf[q].len())
                    },
            decreases conf.len() - p,
        {
            let status = if t < self.confirmed_count(p) {
                InputStatus::Confirmed
            } else {
                InputStatus::Predicted
            };
            out.push(PlayerInput { sample: row[p], status });
            p = p + 1;
        }
        out
    }
}

/// Once no wrong prediction is pending, every tick whose inputs are all
/// confirmed ran with exactly those inputs; so for any deterministic step
/// function the state reached equals the state that running on the
/// confirmed inputs from the start would give.
pub proof fn lemma_replay_converges(
    sync: &InputSynchronizer,
    step: spec_fn(Seq<u8>, Seq<InputSample>) -> Seq<u8>,
    s0: Seq<u8>,
    t: nat,
)
    requires
        sync.wf(),
        sync.first_incorrect_spec() is None,
        t <= sync.frontier_spec(),
        forall|p: int| 0 <= p < sync.num_players_spec() ==> t <= (#[trigger] sync.confirmed_view()[p]).len(),
    ensures
        sync.frames().take(t as int) == confirmed_frames(sync.confirmed_view(), t),
        run(step, s0, sync.frames().take(t as int)) == run(step, s0, confirmed_frames(sync.confirmed_view(), t)),
{
    let conf = sync.confirmed_view();
    let frames = sync.frames();
    let cf = confirmed_frames(conf, t);
    assert forall|k: int| 0 <= k < t implies #[trigger] frames.take(t as int)[k] == cf[k] by {
        assert(frames[k].len() == conf.len());
        assert forall|p: int| 0 <= p < conf.len() implies frames[k][p] == #[trigger] cf[k][p] by {
            assert(k < conf[p].len());
            assert(frames[k][p] == conf[p][k]);
        }
        assert(frames[k] =~= cf[k]);
    }
    assert(frames.take(t as int) =~= cf);
}

/// A replay depends only on the confirmed inputs and the frames kept before
/// it: two synchronizers that agree on those hand the simulation the same
/// frames, whatever each had predicted, and so reach the same state.
pub proof fn lemma_replay_deterministic(
    a: &InputSynchronizer,
    b: &InputSynchronizer,
    from: int,
    step: spec_fn(Seq<u8>, Seq<InputSample>) -> Seq<u8>,
    s0: Seq<u8>,
)
    requires
        a.confirmed_view() == b.confirmed_view(),
        a.frontier_spec() == b.frontier_spec(),
        0 <= from <= a.frontier_spec(),
        a.frames().take(from) == b.frames().take(from),
    ensures
        replayed(a.confirmed_view(), a.frames(), from) == replayed(
            b.confirmed_view(),
            b.frames(),
            from,
        ),
        run(step, s0, replayed(a.confirmed_view(), a.frames(), from)) == run(
            step,
            s0,
            replayed(b.confirmed_view(), b.frames(), from),
        ),
{
    let ra = replayed(a.confirmed_view(), a.frames(), from);
    let rb = replayed(b.confirmed_view(), b.frames(), from);
    assert forall|t: int| 0 <= t < ra.len() implies ra[t] == rb[t] by {
        if t < from {
            assert(a.frames().take(from)[t] == b.frames().take(from)[t]);
        }
    }
    assert(ra =~= rb);
}

} // verus!
