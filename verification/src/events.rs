//! The readiness drain and the packet-plane decisions.
//!
//! After every successful engine mutation the embedding collects, still
//! under the guard, the engine's readable and writable stream lists and
//! its remaining outbound stream credit, and hands them to `drain_events`
//! (or, after a packet arrival, `after_recv`). The drain translates that
//! readiness into waker wake-ups: readable identifiers are visited in
//! ascending order, fresh remote streams join the accept queue, suspended
//! readers and writers are woken, and closing streams are listed for a
//! drain pass. `send_blocked` and `note_timer` carry the send task through
//! the engine's "nothing to do" sentinel: closure wakes everyone, an
//! elapsed deadline asks for the engine's timeout handler, and otherwise
//! the task parks, arming at most one timer. `finalize_events` empties the
//! whole registry when the connection has closed, waking every registered
//! future exactly once.

use vstd::prelude::*;
use std::time::Instant;
use crate::clock::instant_elapsed;
use crate::conn::{admissible, opt_seq, QuicConnState};
use crate::sort::{sort_ids, sorted};
use crate::stream_id::{is_bidi, is_local};

verus! {

/// What the send task does after the engine's "nothing to do" sentinel.
#[derive(PartialEq, Eq, Structural, Debug)]
pub enum SendBlockedStep {
    /// The connection is closed: every registered waker was handed back
    /// to be woken; surface a broken-pipe error.
    ConnectionClosed,
    /// The engine's deadline has already elapsed: run the engine's
    /// timeout handler and try to send again.
    RetryAfterTimeout,
    /// The send task parks; when `armed`, the engine asked to be woken at
    /// a deadline and a timer must be registered for it.
    Park { armed: bool },
}

impl<W> QuicConnState<W> {
    /// The wakers registered anywhere in the record, counted with
    /// multiplicity.
    pub open spec fn registered_wakers(self) -> vstd::multiset::Multiset<W> {
        opt_seq(self.fifo_waker).to_multiset().add(opt_seq(self.open_waker).to_multiset()).add(
            opt_seq(self.send_waker).to_multiset(),
        ).add(self.read_wakers.values().to_multiset()).add(
            self.write_wakers.values().to_multiset(),
        )
    }

    /// Empty the waker registry, handing back every registered waker
    /// exactly once. Called when the engine reports the connection
    /// closed, so that no future sleeps past the end of the connection.
    pub fn finalize_events(&mut self) -> (wakers: Vec<W>)
        requires
            old(self).wf(),
        ensures
            final(self).wf(),
            final(self).server == old(self).server,
            final(self).outbound_next_id == old(self).outbound_next_id,
            final(self).inbound_high_water == old(self).inbound_high_water,
            final(self).fifo() == old(self).fifo(),
            final(self).timer_deadline == old(self).timer_deadline,
            final(self).closing_set == old(self).closing_set,
            final(self).drain_buffer == old(self).drain_buffer,
            final(self).fifo_waker is None,
            final(self).open_waker is None,
            final(self).send_waker is None,
            forall|k: u64| !final(self).read_wakers.spec_has(k),
            forall|k: u64| !final(self).write_wakers.spec_has(k),
            wakers@.to_multiset() == old(self).registered_wakers(),
    {
        let mut wakers: Vec<W> = Vec::new();
        if let Some(w) = self.fifo_waker.take() {
            wakers.push(w);
        }
        if let Some(w) = self.open_waker.take() {
            wakers.push(w);
        }
        if let Some(w) = self.send_waker.take() {
            wakers.push(w);
        }
        let ghost head = wakers@;
        proof {
            broadcast use vstd::seq_lib::group_to_multiset_ensures;
            broadcast use vstd::multiset::group_multiset_axioms;

            assert(head =~= opt_seq(old(self).fifo_waker) + opt_seq(old(self).open_waker)
                + opt_seq(old(self).send_waker));
            vstd::seq_lib::lemma_multiset_commutative(
                opt_seq(old(self).fifo_waker),
                opt_seq(old(self).open_waker),
            );
            vstd::seq_lib::lemma_multiset_commutative(
                opt_seq(old(self).fifo_waker) + opt_seq(old(self).open_waker),
                opt_seq(old(self).send_waker),
            );
            assert(head.to_multiset() =~= opt_seq(old(self).fifo_waker).to_multiset().add(
                opt_seq(old(self).open_waker).to_multiset(),
            ).add(opt_seq(old(self).send_waker).to_multiset()));
        }
        let mut rs = self.read_wakers.take_all();
        let ghost rs_seq = rs@;
        wakers.append(&mut rs);
        let ghost mid = wakers@;
        let mut ws = self.write_wakers.take_all();
        let ghost ws_seq = ws@;
        wakers.append(&mut ws);
        proof {
            broadcast use vstd::multiset::group_multiset_axioms;

            assert(mid == head + rs_seq);
            assert(wakers@ == mid + ws_seq);
            vstd::seq_lib::lemma_multiset_commutative(head, rs_seq);
            vstd::seq_lib::lemma_multiset_commutative(mid, ws_seq);
            assert(wakers@.to_multiset() =~= old(self).registered_wakers());
        }
        wakers
    }

    /// Settle an outstanding timer at the top of a send poll. The timer
    /// slot is cleared, and with it the parked send waker — the send task
    /// is the one polling. Returns whether the engine's timeout handler
    /// must run: the timer existed and its deadline fired.
    pub fn note_timer(&mut self, fired: bool) -> (run_timeout: bool)
        requires
            old(self).wf(),
        ensures
            final(self).wf(),
            final(self).server == old(self).server,
            final(self).outbound_next_id == old(self).outbound_next_id,
            final(self).inbound_high_water == old(self).inbound_high_water,
            final(self).fifo() == old(self).fifo(),
            final(self).read_wakers == old(self).read_wakers,
            final(self).write_wakers == old(self).write_wakers,
            final(self).fifo_waker == old(self).fifo_waker,
            final(self).open_waker == old(self).open_waker,
            final(self).closing_set == old(self).closing_set,
            final(self).drain_buffer == old(self).drain_buffer,
            final(self).timer_deadline is None,
            run_timeout == (old(self).timer_deadline is Some && fired),
            old(self).timer_deadline is Some ==> final(self).send_waker is None,
            old(self).timer_deadline is None ==> final(self).send_waker == old(self).send_waker,
    {
        match self.timer_deadline.take() {
            Some(_) => {
                self.send_waker = None;
                fired
            },
            None => false,
        }
    }

    /// Decide what the send task does when the engine has nothing to
    /// send. Requires the timer slot to be settled first (`note_timer`),
    /// so at most one timer is ever outstanding. If the connection is
    /// closed, the whole registry is woken and a broken pipe surfaced.
    /// Otherwise the task parks — unless the engine's deadline, measured
    /// against `now`, has already elapsed, in which case the engine's
    /// timeout handler runs and the send is retried. When the task parks
    /// with a deadline, the stored deadline is exactly the one the engine
    /// reported.
    pub fn send_blocked(
        &mut self,
        engine_closed: bool,
        timeout: Option<Instant>,
        now: &Instant,
        waker: W,
    ) -> (r: (SendBlockedStep, Vec<W>))
        requires
            old(self).wf(),
            old(self).timer_deadline is None,
        ensures
            final(self).wf(),
            final(self).server == old(self).server,
            final(self).outbound_next_id == old(self).outbound_next_id,
            final(self).inbound_high_water == old(self).inbound_high_water,
            final(self).fifo() == old(self).fifo(),
            final(self).closing_set == old(self).closing_set,
            final(self).drain_buffer == old(self).drain_buffer,
            engine_closed ==> {
                &&& r.0 == SendBlockedStep::ConnectionClosed
                &&& r.1@.to_multiset() == old(self).registered_wakers()
                &&& final(self).fifo_waker is None
                &&& final(self).open_waker is None
                &&& final(self).send_waker is None
                &&& (forall|k: u64| !final(self).read_wakers.spec_has(k))
                &&& (forall|k: u64| !final(self).write_wakers.spec_has(k))
                &&& final(self).timer_deadline is None
            },
            !engine_closed ==> {
                &&& r.1@ == Seq::<W>::empty()
                &&& final(self).read_wakers == old(self).read_wakers
                &&& final(self).write_wakers == old(self).write_wakers
                &&& final(self).fifo_waker == old(self).fifo_waker
                &&& final(self).open_waker == old(self).open_waker
                &&& match r.0 {
                    SendBlockedStep::ConnectionClosed => false,
                    SendBlockedStep::RetryAfterTimeout => {
                        &&& timeout is Some
                        &&& final(self).send_waker == old(self).send_waker
                        &&& final(self).timer_deadline is None
                    },
                    SendBlockedStep::Park { armed } => {
                        &&& final(self).send_waker == Some(waker)
                        &&& (armed ==> timeout is Some && final(self).timer_deadline == timeout)
                        &&& (!armed ==> timeout is None && final(self).timer_deadline is None)
                    },
                }
            },
    {
        if engine_closed {
            let wakers = self.finalize_events();
            return (SendBlockedStep::ConnectionClosed, wakers);
        }
        let wakers: Vec<W> = Vec::new();
        proof {
            assert(wakers@ =~= Seq::<W>::empty());
        }
        match timeout {
            Some(t) => {
                if instant_elapsed(&t, now) {
                    (SendBlockedStep::RetryAfterTimeout, wakers)
                } else {
                    self.timer_deadline = Some(t);
                    self.send_waker = Some(waker);
                    (SendBlockedStep::Park { armed: true }, wakers)
                }
            },
            None => {
                self.send_waker = Some(waker);
                (SendBlockedStep::Park { armed: false }, wakers)
            },
        }
    }

    /// Wake the writers of the streams the engine reported writable: each
    /// listed stream's waker, if any, moves from the table to the wake
    /// list.
    fn wake_writers(&mut self, writable: &Vec<u64>, wakers: Vec<W>) -> (out: Vec<W>)
        requires
            old(self).wf(),
        ensures
            final(self).wf(),
            final(self).server == old(self).server,
            final(self).outbound_next_id == old(self).outbound_next_id,
            final(self).inbound_high_water == old(self).inbound_high_water,
            final(self).fifo() == old(self).fifo(),
            final(self).read_wakers == old(self).read_wakers,
            final(self).send_waker == old(self).send_waker,
            final(self).fifo_waker == old(self).fifo_waker,
            final(self).open_waker == old(self).open_waker,
            final(self).timer_deadline == old(self).timer_deadline,
            final(self).closing_set == old(self).closing_set,
            final(self).drain_buffer == old(self).drain_buffer,
            forall|x: W| wakers@.contains(x) ==> out@.contains(x),
            forall|k: u64| #[trigger]
                final(self).write_wakers.spec_has(k) ==> old(self).write_wakers.spec_has(k)
                    && final(self).write_wakers.spec_get(k) == old(self).write_wakers.spec_get(k),
            forall|k: u64|
                old(self).write_wakers.spec_has(k) && !final(self).write_wakers.spec_has(k)
                    ==> out@.contains(old(self).write_wakers.spec_get(k)),
            forall|k: u64|
                old(self).write_wakers.spec_has(k) && !writable@.contains(k) ==> final(self).write_wakers.spec_has(k),
            forall|j: int|
                0 <= j < writable@.len() ==> !final(self).write_wakers.spec_has(
                    #[trigger] writable@[j],
                ),
    {
        let mut out = wakers;
        let m = writable.len();
        let mut j: usize = 0;
        while j < m
            invariant
                old(self).wf(),
                self.wf(),
                m == writable@.len(),
                j <= m,
                self.server == old(self).server,
                self.outbound_next_id == old(self).outbound_next_id,
                self.inbound_high_water == old(self).inbound_high_water,
                self.fifo() == old(self).fifo(),
                self.read_wakers == old(self).read_wakers,
                self.send_waker == old(self).send_waker,
                self.fifo_waker == old(self).fifo_waker,
                self.open_waker == old(self).open_waker,
                self.timer_deadline == old(self).timer_deadline,
                self.closing_set == old(self).closing_set,
                self.drain_buffer == old(self).drain_buffer,
                forall|x: W| wakers@.contains(x) ==> out@.contains(x),
                forall|k: u64| #[trigger]
                    self.write_wakers.spec_has(k) ==> old(self).write_wakers.spec_has(k)
                        && self.write_wakers.spec_get(k) == old(self).write_wakers.spec_get(k),
                forall|k: u64|
                    old(self).write_wakers.spec_has(k) && !self.write_wakers.spec_has(k)
                        ==> out@.contains(old(self).write_wakers.spec_get(k)),
                forall|k: u64|
                    old(self).write_wakers.spec_has(k) && !writable@.contains(k)
                        ==> self.write_wakers.spec_has(k),
                forall|a: int|
                    0 <= a < j ==> !self.write_wakers.spec_has(#[trigger] writable@[a]),
            decreases m - j,
        {
            let id = writable[j];
            proof {
                assert(writable@.contains(writable@[j as int]));
            }
            let ghost prev_out = out@;
            match self.write_wakers.remove(id) {
                Some(w) => {
                    out.push(w);
                    proof {
                        assert forall|x: W| prev_out.contains(x) implies out@.contains(x) by {
                            let a = choose|a: int| 0 <= a < prev_out.len() && prev_out[a] == x;
                            assert(out@[a] == x);
                        }
                        assert(out@[out@.len() - 1] == w);
                    }
                },
                None => {},
            }
            j = j + 1;
        }
        out
    }

    /// The readiness drain. Runs after every successful engine mutation,
    /// still under the guard: `readable` and `writable` are the streams
    /// the engine reported, `peer_streams_left_bidi` its remaining
    /// outbound credit. Readable identifiers are visited in ascending
    /// order; a fresh remote bidirectional stream joins the accept queue,
    /// a suspended reader is moved to the wake list, and a closing stream
    /// is listed for a drain pass. The accept task wakes when the queue is
    /// non-empty, writers wake per the writable list, and the open task
    /// wakes when credit is available. The first result is the wake list,
    /// to be woken after the guard is released; the second lists closing
    /// streams to drain before releasing it.
    pub fn drain_events(
        &mut self,
        readable: Vec<u64>,
        writable: &Vec<u64>,
        peer_streams_left_bidi: u64,
    ) -> (r: (Vec<W>, Vec<u64>))
        requires
            old(self).wf(),
        ensures
            final(self).wf(),
            final(self).server == old(self).server,
            final(self).outbound_next_id == old(self).outbound_next_id,
            final(self).send_waker == old(self).send_waker,
            final(self).timer_deadline == old(self).timer_deadline,
            final(self).closing_set == old(self).closing_set,
            final(self).drain_buffer == old(self).drain_buffer,
            final(self).inbound_high_water >= old(self).inbound_high_water,
            final(self).fifo().len() >= old(self).fifo().len(),
            forall|a: int|
                0 <= a < old(self).fifo().len() ==> final(self).fifo()[a] == old(self).fifo()[a],
            forall|a: int|
                old(self).fifo().len() <= a < final(self).fifo().len() ==> readable@.contains(
                    #[trigger] final(self).fifo()[a],
                ) && admissible(
                    final(self).fifo()[a],
                    old(self).inbound_high_water,
                    old(self).server,
                ),
            forall|x: u64|
                readable@.contains(x) && admissible(
                    x,
                    old(self).inbound_high_water,
                    old(self).server,
                ) ==> final(self).fifo().contains(x),
            forall|k: u64| #[trigger]
                final(self).read_wakers.spec_has(k) ==> old(self).read_wakers.spec_has(k)
                    && final(self).read_wakers.spec_get(k) == old(self).read_wakers.spec_get(k),
            forall|k: u64|
                old(self).read_wakers.spec_has(k) && !final(self).read_wakers.spec_has(k)
                    ==> r.0@.contains(old(self).read_wakers.spec_get(k)),
            forall|k: u64|
                old(self).read_wakers.spec_has(k) && !readable@.contains(k) ==> final(self).read_wakers.spec_has(k),
            forall|x: u64|
                readable@.contains(x) ==> !final(self).read_wakers.spec_has(x) || admissible(
                    x,
                    old(self).inbound_high_water,
                    old(self).server,
                ),
            forall|k: u64| #[trigger]
                final(self).write_wakers.spec_has(k) ==> old(self).write_wakers.spec_has(k)
                    && final(self).write_wakers.spec_get(k) == old(self).write_wakers.spec_get(k),
            forall|k: u64|
                old(self).write_wakers.spec_has(k) && !final(self).write_wakers.spec_has(k)
                    ==> r.0@.contains(old(self).write_wakers.spec_get(k)),
            forall|k: u64|
                old(self).write_wakers.spec_has(k) && !writable@.contains(k) ==> final(self).write_wakers.spec_has(k),
            forall|j: int|
                0 <= j < writable@.len() ==> !final(self).write_wakers.spec_has(
                    #[trigger] writable@[j],
                ),
            final(self).fifo().len() > 0 ==> final(self).fifo_waker is None,
            final(self).fifo().len() == 0 ==> final(self).fifo_waker == old(self).fifo_waker,
            old(self).fifo_waker is Some && final(self).fifo().len() > 0 ==> r.0@.contains(
                old(self).fifo_waker->0,
            ),
            peer_streams_left_bidi > 0 ==> final(self).open_waker is None,
            peer_streams_left_bidi == 0 ==> final(self).open_waker == old(self).open_waker,
            old(self).open_waker is Some && peer_streams_left_bidi > 0 ==> r.0@.contains(
                old(self).open_waker->0,
            ),
            forall|x: u64| #[trigger]
                r.1@.contains(x) ==> old(self).closing_set.spec_has(x) && readable@.contains(x),
            forall|x: u64|
                readable@.contains(x) && old(self).closing_set.spec_has(x) && !old(
                    self,
                ).read_wakers.spec_has(x) && !admissible(
                    x,
                    old(self).inbound_high_water,
                    old(self).server,
                ) ==> r.1@.contains(x),
    {
        let ghost hw0 = old(self).inbound_high_water;
        let ghost sv = old(self).server;
        let mut ids = readable;
        sort_ids(&mut ids);
        proof {
            broadcast use vstd::seq_lib::group_to_multiset_ensures;

        }
        let mut wakers: Vec<W> = Vec::new();
        let mut to_drain: Vec<u64> = Vec::new();
        let n = ids.len();
        let mut i: usize = 0;
        while i < n
            invariant
                old(self).wf(),
                self.wf(),
                sorted(ids@),
                ids@.to_multiset() == readable@.to_multiset(),
                n == ids@.len(),
                i <= n,
                hw0 == old(self).inbound_high_water,
                sv == old(self).server,
                self.server == old(self).server,
                self.outbound_next_id == old(self).outbound_next_id,
                self.send_waker == old(self).send_waker,
                self.timer_deadline == old(self).timer_deadline,
                self.closing_set == old(self).closing_set,
                self.drain_buffer == old(self).drain_buffer,
                self.fifo_waker == old(self).fifo_waker,
                self.open_waker == old(self).open_waker,
                self.write_wakers == old(self).write_wakers,
                self.inbound_high_water >= hw0,
                self.fifo().len() >= old(self).fifo().len(),
                forall|a: int|
                    0 <= a < old(self).fifo().len() ==> self.fifo()[a] == old(self).fifo()[a],
                forall|a: int|
                    old(self).fifo().len() <= a < self.fifo().len() ==> ids@.contains(
                        #[trigger] self.fifo()[a],
                    ) && admissible(self.fifo()[a], hw0, sv),
                self.inbound_high_water == hw0 || (exists|j: int|
                    0 <= j < i && ids@[j] == self.inbound_high_water),
                self.inbound_high_water > hw0 ==> self.fifo().contains(self.inbound_high_water),
                forall|j: int|
                    0 <= j < i && admissible(#[trigger] ids@[j], hw0, sv) ==> self.fifo().contains(
                        ids@[j],
                    ),
                forall|k: u64| #[trigger]
                    self.read_wakers.spec_has(k) ==> old(self).read_wakers.spec_has(k)
                        && self.read_wakers.spec_get(k) == old(self).read_wakers.spec_get(k),
                forall|k: u64|
                    old(self).read_wakers.spec_has(k) && !self.read_wakers.spec_has(k)
                        ==> wakers@.contains(old(self).read_wakers.spec_get(k)),
                forall|k: u64|
                    old(self).read_wakers.spec_has(k) && !ids@.contains(k)
                        ==> self.read_wakers.spec_has(k),
                forall|j: int|
                    0 <= j < i ==> !self.read_wakers.spec_has(#[trigger] ids@[j]) || admissible(
                        ids@[j],
                        hw0,
                        sv,
                    ),
                forall|x: u64| #[trigger]
                    to_drain@.contains(x) ==> old(self).closing_set.spec_has(x) && ids@.contains(
                        x,
                    ),
                forall|j: int|
                    0 <= j < i && old(self).closing_set.spec_has(#[trigger] ids@[j]) && !old(
                        self,
                    ).read_wakers.spec_has(ids@[j]) && !admissible(ids@[j], hw0, sv)
                        ==> to_drain@.contains(ids@[j]),
            decreases n - i,
        {
            let id = ids[i];
            proof {
                assert(ids@.contains(ids@[i as int]));
            }
            let enqueue = is_bidi(id) && !is_local(id, self.server) && self.inbound_high_water < id;
            if enqueue {
                let ghost gf = self.accept_fifo@;
                let ghost ghw = self.inbound_high_water;
                self.accept_fifo.push_back(id);
                self.inbound_high_water = id;
                proof {
                    assert(self.fifo() == gf.push(id));
                    assert(self.fifo()[self.fifo().len() - 1] == id);
                    assert(forall|a: int| 0 <= a < gf.len() ==> self.fifo()[a] == gf[a]);
                    assert(admissible(id, hw0, sv));
                    assert forall|x: u64| gf.contains(x) implies self.fifo().contains(x) by {
                        let a = choose|a: int| 0 <= a < gf.len() && gf[a] == x;
                        assert(self.fifo()[a] == x);
                    }
                    assert(self.fifo().contains(id));
                    assert(crate::conn::fifo_ordered(self.fifo(), self.inbound_high_water, sv))
                        by {
                        assert forall|a: int, b: int|
                            0 <= a < b < self.fifo().len() implies #[trigger] self.fifo()[a]
                            < #[trigger] self.fifo()[b] by {
                            if b < gf.len() {
                                assert(gf[a] < gf[b]);
                            } else {
                                assert(self.fifo()[b] == id);
                                assert(gf[a] <= ghw);
                            }
                        }
                        assert forall|a: int| 0 <= a < self.fifo().len() implies {
                            &&& (#[trigger] self.fifo()[a]) <= self.inbound_high_water
                            &&& crate::stream_id::spec_is_bidi(self.fifo()[a])
                            &&& !crate::stream_id::spec_is_local(self.fifo()[a], sv)
                        } by {
                            if a < gf.len() {
                                assert(gf[a] <= ghw);
                            }
                        }
                    }
                }
            } else {
                let ghost prev_w = wakers@;
                match self.read_wakers.remove(id) {
                    Some(w) => {
                        wakers.push(w);
                        proof {
                            assert forall|x: W| prev_w.contains(x) implies wakers@.contains(x) by {
                                let a = choose|a: int| 0 <= a < prev_w.len() && prev_w[a] == x;
                                assert(wakers@[a] == x);
                            }
                            assert(wakers@[wakers@.len() - 1] == w);
                            assert(wakers@.contains(w));
                        }
                    },
                    None => {
                        let ghost prev_d = to_drain@;
                        if self.closing_set.contains(id) {
                            to_drain.push(id);
                            proof {
                                assert forall|x: u64| prev_d.contains(x) implies to_drain@.contains(
                                    x,
                                ) by {
                                    let a = choose|a: int|
                                        0 <= a < prev_d.len() && prev_d[a] == x;
                                    assert(to_drain@[a] == x);
                                }
                                assert forall|x: u64| to_drain@.contains(x) implies prev_d.contains(
                                    x,
                                ) || x == id by {
                                    let a = choose|a: int|
                                        0 <= a < to_drain@.len() && to_drain@[a] == x;
                                    if a < prev_d.len() {
                                        assert(prev_d[a] == x);
                                    }
                                }
                                assert(to_drain@[to_drain@.len() - 1] == id);
                                assert(to_drain@.contains(id));
                                assert(ids@.contains(id));
                                assert(old(self).closing_set.spec_has(id));
                                assert forall|x: u64| #[trigger]
                                    to_drain@.contains(x) implies old(self).closing_set.spec_has(
                                    x,
                                ) && ids@.contains(x) by {
                                    if x != id {
                                        assert(prev_d.contains(x));
                                    }
                                }
                            }
                        }
                    },
                }
                proof {
                    if admissible(id, hw0, sv) {
                        assert(id <= self.inbound_high_water);
                        assert(self.inbound_high_water > hw0);
                        let j0 = choose|j: int|
                            0 <= j < i && ids@[j] == self.inbound_high_water;
                        assert(ids@[j0] <= ids@[i as int]);
                        assert(id == self.inbound_high_water);
                        assert(self.fifo().contains(id));
                    }
                }
            }
            i = i + 1;
        }
        proof {
            broadcast use vstd::seq_lib::group_to_multiset_ensures;

            assert forall|x: u64| readable@.contains(x) implies ids@.contains(x) by {
                assert(readable@.to_multiset().count(x) > 0);
            }
            assert forall|x: u64| ids@.contains(x) implies readable@.contains(x) by {
                assert(ids@.to_multiset().count(x) > 0);
            }
            assert forall|x: u64|
                readable@.contains(x) && admissible(x, hw0, sv) implies self.fifo().contains(
                x,
            ) by {
                let j = choose|j: int| 0 <= j < ids@.len() && ids@[j] == x;
                assert(admissible(ids@[j], hw0, sv));
            }
            assert forall|x: u64|
                readable@.contains(x) implies !self.read_wakers.spec_has(x) || admissible(
                x,
                hw0,
                sv,
            ) by {
                let j = choose|j: int| 0 <= j < ids@.len() && ids@[j] == x;
                assert(!self.read_wakers.spec_has(ids@[j]) || admissible(ids@[j], hw0, sv));
            }
            assert forall|x: u64|
                readable@.contains(x) && old(self).closing_set.spec_has(x) && !old(
                self,
            ).read_wakers.spec_has(x) && !admissible(x, hw0, sv) implies to_drain@.contains(x) by {
                let j = choose|j: int| 0 <= j < ids@.len() && ids@[j] == x;
                assert(old(self).closing_set.spec_has(ids@[j]));
            }
            assert forall|x: u64| #[trigger]
                to_drain@.contains(x) implies old(self).closing_set.spec_has(x)
                && readable@.contains(x) by {
                assert(ids@.contains(x));
            }
        }
        if self.accept_fifo.len() > 0 {
            let ghost prev_w = wakers@;
            if let Some(w) = self.fifo_waker.take() {
                wakers.push(w);
                proof {
                    assert forall|x: W| prev_w.contains(x) implies wakers@.contains(x) by {
                        let a = choose|a: int| 0 <= a < prev_w.len() && prev_w[a] == x;
                        assert(wakers@[a] == x);
                    }
                    assert(wakers@[wakers@.len() - 1] == w);
                    assert(wakers@.contains(w));
                }
            }
        }
        let wakers = self.wake_writers(writable, wakers);
        let mut wakers = wakers;
        if peer_streams_left_bidi > 0 {
            let ghost prev_w = wakers@;
            if let Some(w) = self.open_waker.take() {
                wakers.push(w);
                proof {
                    assert forall|x: W| prev_w.contains(x) implies wakers@.contains(x) by {
                        let a = choose|a: int| 0 <= a < prev_w.len() && prev_w[a] == x;
                        assert(wakers@[a] == x);
                    }
                    assert(wakers@[wakers@.len() - 1] == w);
                    assert(wakers@.contains(w));
                }
            }
        }
        (wakers, to_drain)
    }

    /// The drain that follows a packet arrival: every ingress may unblock
    /// egress, so besides the readiness drain the send task's waker joins
    /// the wake list.
    pub fn after_recv(
        &mut self,
        readable: Vec<u64>,
        writable: &Vec<u64>,
        peer_streams_left_bidi: u64,
    ) -> (r: (Vec<W>, Vec<u64>))
        requires
            old(self).wf(),
        ensures
            final(self).wf(),
            final(self).server == old(self).server,
            final(self).outbound_next_id == old(self).outbound_next_id,
            final(self).timer_deadline == old(self).timer_deadline,
            final(self).closing_set == old(self).closing_set,
            final(self).drain_buffer == old(self).drain_buffer,
            final(self).send_waker is None,
            old(self).send_waker is Some ==> r.0@.contains(old(self).send_waker->0),
            final(self).inbound_high_water >= old(self).inbound_high_water,
            final(self).fifo().len() >= old(self).fifo().len(),
            forall|a: int|
                0 <= a < old(self).fifo().len() ==> final(self).fifo()[a] == old(self).fifo()[a],
            forall|a: int|
                old(self).fifo().len() <= a < final(self).fifo().len() ==> readable@.contains(
                    #[trigger] final(self).fifo()[a],
                ) && admissible(
                    final(self).fifo()[a],
                    old(self).inbound_high_water,
                    old(self).server,
                ),
            forall|x: u64|
                readable@.contains(x) && admissible(
                    x,
                    old(self).inbound_high_water,
                    old(self).server,
                ) ==> final(self).fifo().contains(x),
            forall|k: u64| #[trigger]
                final(self).read_wakers.spec_has(k) ==> old(self).read_wakers.spec_has(k)
                    && final(self).read_wakers.spec_get(k) == old(self).read_wakers.spec_get(k),
            forall|k: u64|
                old(self).read_wakers.spec_has(k) && !final(self).read_wakers.spec_has(k)
                    ==> r.0@.contains(old(self).read_wakers.spec_get(k)),
            forall|k: u64|
                old(self).read_wakers.spec_has(k) && !readable@.contains(k) ==> final(self).read_wakers.spec_has(k),
            forall|k: u64| #[trigger]
                final(self).write_wakers.spec_has(k) ==> old(self).write_wakers.spec_has(k)
                    && final(self).write_wakers.spec_get(k) == old(self).write_wakers.spec_get(k),
            forall|k: u64|
                old(self).write_wakers.spec_has(k) && !final(self).write_wakers.spec_has(k)
                    ==> r.0@.contains(old(self).write_wakers.spec_get(k)),
            forall|k: u64|
                old(self).write_wakers.spec_has(k) && !writable@.contains(k) ==> final(self).write_wakers.spec_has(k),
            forall|j: int|
                0 <= j < writable@.len() ==> !final(self).write_wakers.spec_has(
                    #[trigger] writable@[j],
                ),
            forall|x: u64|
                readable@.contains(x) ==> !final(self).read_wakers.spec_has(x) || admissible(
                    x,
                    old(self).inbound_high_water,
                    old(self).server,
                ),
            final(self).fifo().len() > 0 ==> final(self).fifo_waker is None,
            final(self).fifo().len() == 0 ==> final(self).fifo_waker == old(self).fifo_waker,
            old(self).fifo_waker is Some && final(self).fifo().len() > 0 ==> r.0@.contains(
                old(self).fifo_waker->0,
            ),
            peer_streams_left_bidi > 0 ==> final(self).open_waker is None,
            peer_streams_left_bidi == 0 ==> final(self).open_waker == old(self).open_waker,
            old(self).open_waker is Some && peer_streams_left_bidi > 0 ==> r.0@.contains(
                old(self).open_waker->0,
            ),
            forall|x: u64| #[trigger]
                r.1@.contains(x) ==> old(self).closing_set.spec_has(x) && readable@.contains(x),
            forall|x: u64|
                readable@.contains(x) && old(self).closing_set.spec_has(x) && !old(
                    self,
                ).read_wakers.spec_has(x) && !admissible(
                    x,
                    old(self).inbound_high_water,
                    old(self).server,
                ) ==> r.1@.contains(x),
    {
        let (wakers, to_drain) = self.drain_events(readable, writable, peer_streams_left_bidi);
        let mut wakers = wakers;
        let ghost prev_w = wakers@;
        if let Some(w) = self.send_waker.take() {
            wakers.push(w);
            proof {
                assert forall|x: W| prev_w.contains(x) implies wakers@.contains(x) by {
                    let a = choose|a: int| 0 <= a < prev_w.len() && prev_w[a] == x;
                    assert(wakers@[a] == x);
                }
                assert(wakers@[wakers@.len() - 1] == w);
            }
        }
        (wakers, to_drain)
    }
}

} // verus!
