//! The guarded connection record and its decision rules.
//!
//! One `QuicConnState` exists per QUIC connection. The embedding code owns
//! the engine and a mutual-exclusion guard; under that guard it makes one
//! engine call at a time and hands what the engine said to the functions
//! here, which update the record and say what to do next: deliver a result,
//! suspend the calling task, surface an error, or wake other tasks. Wakers
//! are opaque to the record — any type will do — and every waker a function
//! returns is to be woken after the guard is released.

use vstd::prelude::*;
use std::collections::VecDeque;
use std::time::Instant;
use crate::engine::{CloseReport, StreamReadReport, StreamWriteReport};
use crate::slots::{removed, updated, Slots};
use crate::stream_id::{spec_is_bidi, spec_is_local};

verus! {

/// The sequence a stored waker makes when taken: one element, or none.
pub open spec fn opt_seq<W>(o: Option<W>) -> Seq<W> {
    match o {
        Some(w) => seq![w],
        None => Seq::empty(),
    }
}

/// The first bidirectional stream identifier the local side may allocate:
/// the server starts at 5, the client at 4. Identifier 0 is reserved as a
/// control stream by the surrounding protocol and is never issued.
pub open spec fn first_outbound_id(server: bool) -> u64 {
    if server {
        5u64
    } else {
        4u64
    }
}

/// A readable identifier is admitted to the accept queue when it is
/// bidirectional, remote-initiated, and strictly above the high-water
/// mark.
pub open spec fn admissible(id: u64, high_water: u64, server: bool) -> bool {
    &&& spec_is_bidi(id)
    &&& !spec_is_local(id, server)
    &&& id > high_water
}

/// The accept queue is strictly increasing and holds only remote
/// bidirectional identifiers at or below the high-water mark.
pub open spec fn fifo_ordered(fifo: Seq<u64>, high_water: u64, server: bool) -> bool {
    &&& (forall|a: int, b: int|
        #![trigger fifo[a], fifo[b]]
        0 <= a < b < fifo.len() ==> fifo[a] < fifo[b])
    &&& (forall|a: int|
        #![trigger fifo[a]]
        0 <= a < fifo.len() ==> {
            &&& fifo[a] <= high_water
            &&& spec_is_bidi(fifo[a])
            &&& !spec_is_local(fifo[a], server)
        })
}

/// One connection's dispatcher state. All engine access and every call
/// into this record happen under a single guard owned by the embedding;
/// the guard is never held across a suspension.
pub struct QuicConnState<W> {
    /// Whether the local side is the server.
    pub server: bool,
    /// Next bidirectional stream identifier the local side will allocate.
    pub outbound_next_id: u64,
    /// Largest remote-initiated stream identifier ever admitted to the
    /// accept queue. Monotonically non-decreasing; admission requires
    /// strictly exceeding it, so no identifier is admitted twice.
    pub inbound_high_water: u64,
    /// Inbound stream identifiers awaiting `accept`, in admission order.
    pub accept_fifo: VecDeque<u64>,
    /// At most one waker per stream awaiting readability.
    pub read_wakers: Slots<W>,
    /// At most one waker per stream awaiting writability.
    pub write_wakers: Slots<W>,
    /// Waker of the packet-plane send task, if suspended.
    pub send_waker: Option<W>,
    /// Waker of the accept task, if suspended.
    pub fifo_waker: Option<W>,
    /// Waker of the task awaiting outbound stream credit, if suspended.
    pub open_waker: Option<W>,
    /// The engine's most recently registered wake-up deadline, while a
    /// reactor timer for it is outstanding.
    pub timer_deadline: Option<Instant>,
    /// Streams whose local half sent its FIN but whose remote FIN has not
    /// yet arrived, each with the instant it entered this state. The
    /// timestamp is diagnostic only; no drain lifetime is enforced.
    pub closing_set: Slots<Instant>,
    /// Scratch buffer the embedding drains closing streams into.
    pub drain_buffer: Vec<u8>,
}

impl<W> QuicConnState<W> {
    /// The accept queue as a sequence.
    pub open spec fn fifo(self) -> Seq<u64> {
        self.accept_fifo@
    }

    /// Well-formedness: the waker tables hold one value per key; the next
    /// outbound identifier stays in the role's residue class; the accept
    /// queue is strictly increasing and holds only remote bidirectional
    /// identifiers at or below the high-water mark; the scratch buffer can
    /// hold a full datagram.
    pub open spec fn wf(self) -> bool {
        &&& self.read_wakers.wf()
        &&& self.write_wakers.wf()
        &&& self.closing_set.wf()
        &&& self.outbound_next_id % 4 == first_outbound_id(self.server) % 4
        &&& self.outbound_next_id >= first_outbound_id(self.server)
        &&& fifo_ordered(self.accept_fifo@, self.inbound_high_water, self.server)
        &&& self.drain_buffer@.len() >= 1200
    }

    /// A fresh record for a connection of the given role: queue empty, no
    /// wakers, no timer, nothing closing.
    pub fn new(server: bool) -> (c: QuicConnState<W>)
        ensures
            c.wf(),
            c.server == server,
            c.outbound_next_id == first_outbound_id(server),
            c.inbound_high_water == 0,
            c.fifo() == Seq::<u64>::empty(),
            forall|k: u64| !c.read_wakers.spec_has(k),
            forall|k: u64| !c.write_wakers.spec_has(k),
            forall|k: u64| !c.closing_set.spec_has(k),
            c.send_waker is None,
            c.fifo_waker is None,
            c.open_waker is None,
            c.timer_deadline is None,
    {
        let c = QuicConnState {
            server,
            outbound_next_id: if server {
                5
            } else {
                4
            },
            inbound_high_water: 0,
            accept_fifo: VecDeque::new(),
            read_wakers: Slots::new(),
            write_wakers: Slots::new(),
            send_waker: None,
            fifo_waker: None,
            open_waker: None,
            timer_deadline: None,
            closing_set: Slots::new(),
            drain_buffer: vec![0u8; 1200],
        };
        proof {
            assert(c.fifo() =~= Seq::<u64>::empty());
        }
        c
    }
}

/// What `accept` does next.
#[derive(PartialEq, Eq, Structural, Debug)]
pub enum AcceptStep {
    /// The connection is closed: surface a broken-pipe error.
    Closed,
    /// Hand this stream to the caller.
    Stream { stream_id: u64 },
    /// Nothing queued: the caller's waker is stored; suspend.
    Parked,
}

/// What a stream read returns.
#[derive(PartialEq, Eq, Structural, Debug)]
pub enum ReadStep {
    /// The engine delivered bytes; `fin` marks the peer's end of data.
    Delivered { len: usize, fin: bool },
    /// The connection is draining or closed: report end of file, zero
    /// bytes with the FIN flag set.
    AtEof,
    /// Nothing readable: the caller's waker is stored; suspend.
    Parked,
    /// The engine failed: surface its error.
    Failed,
}

/// What a stream write returns.
#[derive(PartialEq, Eq, Structural, Debug)]
pub enum WriteStep {
    /// The engine accepted this many bytes.
    Accepted { len: usize },
    /// The connection is draining or closed: surface a broken-pipe error.
    Broken,
    /// No capacity: the caller's waker is stored; suspend.
    Parked,
    /// The engine failed: surface its error.
    Failed,
}

/// What `close` returns.
#[derive(PartialEq, Eq, Structural, Debug)]
pub enum CloseStep {
    /// The engine started closing; the send task is woken to flush the
    /// close frame.
    Started,
    /// The engine was already closing; success with nothing to do.
    AlreadyClosing,
    /// The engine failed: surface its error.
    Failed,
}

/// What to do with a stream whose user handle was dropped.
#[derive(PartialEq, Eq, Structural, Debug)]
pub enum RetireStep {
    /// The connection is already closed: nothing to do.
    ConnClosed,
    /// The stream is finished in the engine: drain any residue at once.
    DrainNow,
    /// The remote half is still open: the stream joined the closing set
    /// and will be drained as the engine reports it readable.
    Parked,
}

/// One round of draining a closing stream, classified from what
/// `engine.stream_recv` said.
#[derive(PartialEq, Eq, Structural, Debug)]
pub enum DrainStep {
    /// The remote FIN arrived, or the engine failed: the stream is done
    /// and leaves the closing set.
    Completed,
    /// Bytes came without FIN: read again.
    Again,
    /// Nothing readable now: keep the stream in the closing set.
    Parked,
}

impl<W> QuicConnState<W> {
    /// Accept decision: surface closure, pop the queue head, or park the
    /// caller in the accept slot.
    pub fn accept_next(&mut self, engine_closed: bool, waker: W) -> (r: AcceptStep)
        requires
            old(self).wf(),
        ensures
            final(self).wf(),
            final(self).server == old(self).server,
            final(self).outbound_next_id == old(self).outbound_next_id,
            final(self).inbound_high_water == old(self).inbound_high_water,
            final(self).read_wakers == old(self).read_wakers,
            final(self).write_wakers == old(self).write_wakers,
            final(self).send_waker == old(self).send_waker,
            final(self).open_waker == old(self).open_waker,
            final(self).timer_deadline == old(self).timer_deadline,
            final(self).closing_set == old(self).closing_set,
            final(self).drain_buffer == old(self).drain_buffer,
            engine_closed ==> r == AcceptStep::Closed && final(self).fifo() == old(self).fifo()
                && final(self).fifo_waker == old(self).fifo_waker,
            !engine_closed && old(self).fifo().len() > 0 ==> r == (AcceptStep::Stream {
                stream_id: old(self).fifo()[0],
            }) && final(self).fifo() == old(self).fifo().drop_first() && final(self).fifo_waker
                == old(self).fifo_waker,
            !engine_closed && old(self).fifo().len() == 0 ==> r == AcceptStep::Parked && final(self).fifo() == old(self).fifo() && final(self).fifo_waker == Some(waker),
    {
        if engine_closed {
            return AcceptStep::Closed;
        }
        match self.accept_fifo.pop_front() {
            Some(stream_id) => {
                proof {
                    assert(self.fifo() =~= old(self).fifo().drop_first());
                }
                AcceptStep::Stream { stream_id }
            },
            None => {
                self.fifo_waker = Some(waker);
                AcceptStep::Parked
            },
        }
    }

    /// Allocate the next outbound stream identifier, if the peer has
    /// granted credit and identifiers remain. The identifier handed out is
    /// always local, bidirectional, and 4 more than the previous one.
    pub fn try_alloc_stream(&mut self, peer_streams_left_bidi: u64) -> (r: Option<u64>)
        requires
            old(self).wf(),
        ensures
            final(self).wf(),
            final(self).server == old(self).server,
            final(self).inbound_high_water == old(self).inbound_high_water,
            final(self).fifo() == old(self).fifo(),
            final(self).read_wakers == old(self).read_wakers,
            final(self).write_wakers == old(self).write_wakers,
            final(self).send_waker == old(self).send_waker,
            final(self).fifo_waker == old(self).fifo_waker,
            final(self).open_waker == old(self).open_waker,
            final(self).timer_deadline == old(self).timer_deadline,
            final(self).closing_set == old(self).closing_set,
            final(self).drain_buffer == old(self).drain_buffer,
            (r is Some) <==> (peer_streams_left_bidi > 0 && old(self).outbound_next_id + 4
                <= u64::MAX),
            r is Some ==> r == Some(old(self).outbound_next_id) && final(self).outbound_next_id
                == old(self).outbound_next_id + 4,
            r is None ==> final(self).outbound_next_id == old(self).outbound_next_id,
            r is Some ==> spec_is_bidi(old(self).outbound_next_id) && spec_is_local(
                old(self).outbound_next_id,
                old(self).server,
            ) && old(self).outbound_next_id >= first_outbound_id(old(self).server),
    {
        if peer_streams_left_bidi > 0 && self.outbound_next_id <= u64::MAX - 4 {
            let stream_id = self.outbound_next_id;
            self.outbound_next_id = self.outbound_next_id + 4;
            proof {
                let s = old(self).server;
                assert(stream_id % 4 == first_outbound_id(s) % 4);
                assert(stream_id <= u64::MAX - 4 ==> (stream_id + 4) % 4 == stream_id % 4)
                    by (bit_vector);
                assert(stream_id % 4 == 0 ==> stream_id % 2 == 0) by (bit_vector);
                assert(stream_id % 4 == 1 ==> stream_id % 2 == 1) by (bit_vector);
            }
            Some(stream_id)
        } else {
            None
        }
    }

    /// Allocate as `try_alloc_stream`; when nothing can be allocated, park
    /// the caller in the open slot instead.
    pub fn alloc_or_park(&mut self, peer_streams_left_bidi: u64, waker: W) -> (r: Option<u64>)
        requires
            old(self).wf(),
        ensures
            final(self).wf(),
            final(self).server == old(self).server,
            final(self).inbound_high_water == old(self).inbound_high_water,
            final(self).fifo() == old(self).fifo(),
            final(self).read_wakers == old(self).read_wakers,
            final(self).write_wakers == old(self).write_wakers,
            final(self).send_waker == old(self).send_waker,
            final(self).fifo_waker == old(self).fifo_waker,
            final(self).timer_deadline == old(self).timer_deadline,
            final(self).closing_set == old(self).closing_set,
            final(self).drain_buffer == old(self).drain_buffer,
            (r is Some) <==> (peer_streams_left_bidi > 0 && old(self).outbound_next_id + 4
                <= u64::MAX),
            r is Some ==> r == Some(old(self).outbound_next_id) && final(self).outbound_next_id
                == old(self).outbound_next_id + 4 && final(self).open_waker == old(self).open_waker,
            r is None ==> final(self).outbound_next_id == old(self).outbound_next_id && final(self).open_waker == Some(waker),
            r is Some ==> spec_is_bidi(old(self).outbound_next_id) && spec_is_local(
                old(self).outbound_next_id,
                old(self).server,
            ) && old(self).outbound_next_id >= first_outbound_id(old(self).server),
    {
        let r = self.try_alloc_stream(peer_streams_left_bidi);
        if r.is_none() {
            self.open_waker = Some(waker);
        }
        r
    }

    /// Read decision for one stream, from what `engine.stream_recv` said
    /// and whether the connection is draining or closed. A successful read
    /// wakes the send task, since consuming data may advance flow-control
    /// windows.
    pub fn stream_read_step(
        &mut self,
        stream_id: u64,
        report: StreamReadReport,
        halted: bool,
        waker: W,
    ) -> (r: (ReadStep, Vec<W>))
        requires
            old(self).wf(),
        ensures
            final(self).wf(),
            final(self).server == old(self).server,
            final(self).outbound_next_id == old(self).outbound_next_id,
            final(self).inbound_high_water == old(self).inbound_high_water,
            final(self).fifo() == old(self).fifo(),
            final(self).write_wakers == old(self).write_wakers,
            final(self).fifo_waker == old(self).fifo_waker,
            final(self).open_waker == old(self).open_waker,
            final(self).timer_deadline == old(self).timer_deadline,
            final(self).closing_set == old(self).closing_set,
            final(self).drain_buffer == old(self).drain_buffer,
            match report {
                StreamReadReport::Data { len, fin } => {
                    &&& r.0 == (ReadStep::Delivered { len, fin })
                    &&& final(self).read_wakers == old(self).read_wakers
                    &&& final(self).send_waker is None
                    &&& r.1@ == opt_seq(old(self).send_waker)
                },
                StreamReadReport::Done => {
                    if halted {
                        &&& r.0 == ReadStep::AtEof
                        &&& final(self).read_wakers == old(self).read_wakers
                        &&& final(self).send_waker == old(self).send_waker
                        &&& r.1@ == Seq::<W>::empty()
                    } else {
                        &&& r.0 == ReadStep::Parked
                        &&& updated(old(self).read_wakers, final(self).read_wakers, stream_id, waker)
                        &&& final(self).send_waker == old(self).send_waker
                        &&& r.1@ == Seq::<W>::empty()
                    }
                },
                StreamReadReport::Fail => {
                    &&& r.0 == ReadStep::Failed
                    &&& final(self).read_wakers == old(self).read_wakers
                    &&& final(self).send_waker == old(self).send_waker
                    &&& r.1@ == Seq::<W>::empty()
                },
            },
    {
        let mut wakers: Vec<W> = Vec::new();
        match report {
            StreamReadReport::Data { len, fin } => {
                if let Some(w) = self.send_waker.take() {
                    wakers.push(w);
                }
                proof {
                    assert(wakers@ =~= opt_seq(old(self).send_waker));
                }
                (ReadStep::Delivered { len, fin }, wakers)
            },
            StreamReadReport::Done => {
                if halted {
                    proof {
                        assert(wakers@ =~= Seq::<W>::empty());
                    }
                    (ReadStep::AtEof, wakers)
                } else {
                    self.read_wakers.insert(stream_id, waker);
                    proof {
                        assert(wakers@ =~= Seq::<W>::empty());
                    }
                    (ReadStep::Parked, wakers)
                }
            },
            StreamReadReport::Fail => {
                proof {
                    assert(wakers@ =~= Seq::<W>::empty());
                }
                (ReadStep::Failed, wakers)
            },
        }
    }

    /// Write decision for one stream, from what `engine.stream_send` said
    /// and whether the connection is draining or closed. An accepted write
    /// wakes the send task so the bytes reach the wire.
    pub fn stream_write_step(
        &mut self,
        stream_id: u64,
        report: StreamWriteReport,
        halted: bool,
        waker: W,
    ) -> (r: (WriteStep, Vec<W>))
        requires
            old(self).wf(),
        ensures
            final(self).wf(),
            final(self).server == old(self).server,
            final(self).outbound_next_id == old(self).outbound_next_id,
            final(self).inbound_high_water == old(self).inbound_high_water,
            final(self).fifo() == old(self).fifo(),
            final(self).read_wakers == old(self).read_wakers,
            final(self).fifo_waker == old(self).fifo_waker,
            final(self).open_waker == old(self).open_waker,
            final(self).timer_deadline == old(self).timer_deadline,
            final(self).closing_set == old(self).closing_set,
            final(self).drain_buffer == old(self).drain_buffer,
            match report {
                StreamWriteReport::Accepted { len } => {
                    &&& r.0 == (WriteStep::Accepted { len })
                    &&& final(self).write_wakers == old(self).write_wakers
                    &&& final(self).send_waker is None
                    &&& r.1@ == opt_seq(old(self).send_waker)
                },
                StreamWriteReport::Done => {
                    if halted {
                        &&& r.0 == WriteStep::Broken
                        &&& final(self).write_wakers == old(self).write_wakers
                        &&& final(self).send_waker == old(self).send_waker
                        &&& r.1@ == Seq::<W>::empty()
                    } else {
                        &&& r.0 == WriteStep::Parked
                        &&& updated(
                            old(self).write_wakers,
                            final(self).write_wakers,
                            stream_id,
                            waker,
                        )
                        &&& final(self).send_waker == old(self).send_waker
                        &&& r.1@ == Seq::<W>::empty()
                    }
                },
                StreamWriteReport::Fail => {
                    &&& r.0 == WriteStep::Failed
                    &&& final(self).write_wakers == old(self).write_wakers
                    &&& final(self).send_waker == old(self).send_waker
                    &&& r.1@ == Seq::<W>::empty()
                },
            },
    {
        let mut wakers: Vec<W> = Vec::new();
        match report {
            StreamWriteReport::Accepted { len } => {
                if let Some(w) = self.send_waker.take() {
                    wakers.push(w);
                }
                proof {
                    assert(wakers@ =~= opt_seq(old(self).send_waker));
                }
                (WriteStep::Accepted { len }, wakers)
            },
            StreamWriteReport::Done => {
                if halted {
                    proof {
                        assert(wakers@ =~= Seq::<W>::empty());
                    }
                    (WriteStep::Broken, wakers)
                } else {
                    self.write_wakers.insert(stream_id, waker);
                    proof {
                        assert(wakers@ =~= Seq::<W>::empty());
                    }
                    (WriteStep::Parked, wakers)
                }
            },
            StreamWriteReport::Fail => {
                proof {
                    assert(wakers@ =~= Seq::<W>::empty());
                }
                (WriteStep::Failed, wakers)
            },
        }
    }

    /// Close decision, from what `engine.close` said. Starting to close
    /// wakes the send task so the close frame is flushed; the engine's
    /// sentinel means closing had already begun and counts as success.
    pub fn close_step(&mut self, report: CloseReport) -> (r: (CloseStep, Vec<W>))
        requires
            old(self).wf(),
        ensures
            final(self).wf(),
            final(self).server == old(self).server,
            final(self).outbound_next_id == old(self).outbound_next_id,
            final(self).inbound_high_water == old(self).inbound_high_water,
            final(self).fifo() == old(self).fifo(),
            final(self).read_wakers == old(self).read_wakers,
            final(self).write_wakers == old(self).write_wakers,
            final(self).fifo_waker == old(self).fifo_waker,
            final(self).open_waker == old(self).open_waker,
            final(self).timer_deadline == old(self).timer_deadline,
            final(self).closing_set == old(self).closing_set,
            final(self).drain_buffer == old(self).drain_buffer,
            match report {
                CloseReport::Started => {
                    &&& r.0 == CloseStep::Started
                    &&& final(self).send_waker is None
                    &&& r.1@ == opt_seq(old(self).send_waker)
                },
                CloseReport::Done => {
                    &&& r.0 == CloseStep::AlreadyClosing
                    &&& final(self).send_waker == old(self).send_waker
                    &&& r.1@ == Seq::<W>::empty()
                },
                CloseReport::Fail => {
                    &&& r.0 == CloseStep::Failed
                    &&& final(self).send_waker == old(self).send_waker
                    &&& r.1@ == Seq::<W>::empty()
                },
            },
    {
        let mut wakers: Vec<W> = Vec::new();
        match report {
            CloseReport::Started => {
                if let Some(w) = self.send_waker.take() {
                    wakers.push(w);
                }
                proof {
                    assert(wakers@ =~= opt_seq(old(self).send_waker));
                }
                (CloseStep::Started, wakers)
            },
            CloseReport::Done => {
                proof {
                    assert(wakers@ =~= Seq::<W>::empty());
                }
                (CloseStep::AlreadyClosing, wakers)
            },
            CloseReport::Fail => {
                proof {
                    assert(wakers@ =~= Seq::<W>::empty());
                }
                (CloseStep::Failed, wakers)
            },
        }
    }

    /// Retire decision for a dropped stream handle, taken after the
    /// embedding sent the stream's FIN: if the connection is closed there
    /// is nothing to do; if the engine reports the stream finished its
    /// residue is drained at once; otherwise the stream joins the closing
    /// set, stamped with `now`. Either live outcome wakes the send task so
    /// the FIN frame is flushed.
    pub fn retire_stream(
        &mut self,
        stream_id: u64,
        engine_closed: bool,
        finished: bool,
        now: Instant,
    ) -> (r: (RetireStep, Vec<W>))
        requires
            old(self).wf(),
        ensures
            final(self).wf(),
            final(self).server == old(self).server,
            final(self).outbound_next_id == old(self).outbound_next_id,
            final(self).inbound_high_water == old(self).inbound_high_water,
            final(self).fifo() == old(self).fifo(),
            final(self).read_wakers == old(self).read_wakers,
            final(self).write_wakers == old(self).write_wakers,
            final(self).fifo_waker == old(self).fifo_waker,
            final(self).open_waker == old(self).open_waker,
            final(self).timer_deadline == old(self).timer_deadline,
            final(self).drain_buffer == old(self).drain_buffer,
            engine_closed ==> r.0 == RetireStep::ConnClosed && final(self).closing_set == old(self).closing_set && final(self).send_waker == old(self).send_waker && r.1@ == Seq::<
                W,
            >::empty(),
            !engine_closed && finished ==> r.0 == RetireStep::DrainNow && final(self).closing_set
                == old(self).closing_set && final(self).send_waker is None && r.1@ == opt_seq(
                old(self).send_waker,
            ),
            !engine_closed && !finished ==> r.0 == RetireStep::Parked && updated(
                old(self).closing_set,
                final(self).closing_set,
                stream_id,
                now,
            ) && final(self).send_waker is None && r.1@ == opt_seq(old(self).send_waker),
    {
        let mut wakers: Vec<W> = Vec::new();
        if engine_closed {
            proof {
                assert(wakers@ =~= Seq::<W>::empty());
            }
            return (RetireStep::ConnClosed, wakers);
        }
        let step = if finished {
            RetireStep::DrainNow
        } else {
            self.closing_set.insert(stream_id, now);
            RetireStep::Parked
        };
        if let Some(w) = self.send_waker.take() {
            wakers.push(w);
        }
        proof {
            assert(wakers@ =~= opt_seq(old(self).send_waker));
        }
        (step, wakers)
    }

    /// Remove a closing stream once a drain pass saw its remote FIN (or an
    /// engine failure); a stream whose drain is not finished stays, with
    /// its original admission stamp.
    pub fn retire_closing(&mut self, stream_id: u64, finished: bool)
        requires
            old(self).wf(),
        ensures
            final(self).wf(),
            final(self).server == old(self).server,
            final(self).outbound_next_id == old(self).outbound_next_id,
            final(self).inbound_high_water == old(self).inbound_high_water,
            final(self).fifo() == old(self).fifo(),
            final(self).read_wakers == old(self).read_wakers,
            final(self).write_wakers == old(self).write_wakers,
            final(self).send_waker == old(self).send_waker,
            final(self).fifo_waker == old(self).fifo_waker,
            final(self).open_waker == old(self).open_waker,
            final(self).timer_deadline == old(self).timer_deadline,
            final(self).drain_buffer == old(self).drain_buffer,
            finished ==> removed(old(self).closing_set, final(self).closing_set, stream_id),
            !finished ==> final(self).closing_set == old(self).closing_set,
    {
        if finished {
            let _ = self.closing_set.remove(stream_id);
        }
    }
}

/// Classify one drain pass over a closing stream: the remote FIN or an
/// engine failure completes it, bytes without FIN ask for another pass,
/// and the sentinel parks it until the engine reports it readable again.
pub fn drain_step(report: StreamReadReport) -> (r: DrainStep)
    ensures
        match report {
            StreamReadReport::Data { len, fin } => r == if fin {
                DrainStep::Completed
            } else {
                DrainStep::Again
            },
            StreamReadReport::Done => r == DrainStep::Parked,
            StreamReadReport::Fail => r == DrainStep::Completed,
        },
{
    match report {
        StreamReadReport::Data { len: _, fin } => {
            if fin {
                DrainStep::Completed
            } else {
                DrainStep::Again
            }
        },
        StreamReadReport::Done => DrainStep::Parked,
        StreamReadReport::Fail => DrainStep::Completed,
    }
}

/// The number of outbound streams currently active, from the peer's
/// initial bidirectional stream allowance and the credit it has left. The
/// peer may raise its allowance later; when the credit left exceeds the
/// initial allowance the count saturates at zero.
pub fn active_outbound_streams(
    initial_max_streams_bidi: Option<u64>,
    peer_streams_left_bidi: u64,
) -> (r: Option<u64>)
    ensures
        initial_max_streams_bidi is None ==> r is None,
        initial_max_streams_bidi matches Some(m) ==> r == Some(
            if peer_streams_left_bidi <= m {
                (m - peer_streams_left_bidi) as u64
            } else {
                0u64
            },
        ),
{
    match initial_max_streams_bidi {
        Some(m) => {
            if peer_streams_left_bidi <= m {
                Some(m - peer_streams_left_bidi)
            } else {
                Some(0)
            }
        },
        None => None,
    }
}

} // verus!
