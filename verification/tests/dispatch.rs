//! The dispatcher's decision rules, driven with explicit engine reports.
//!
//! Waker stand-ins are plain integers: the record never looks inside a
//! waker, so any token will do.

use std::time::{Duration, Instant};

use quic_dispatch::conn::{
    active_outbound_streams, drain_step, AcceptStep, CloseStep, DrainStep, QuicConnState,
    ReadStep, RetireStep, WriteStep,
};
use quic_dispatch::engine::{CloseReport, StreamReadReport, StreamWriteReport};
use quic_dispatch::events::SendBlockedStep;

fn client() -> QuicConnState<u64> {
    QuicConnState::new(false)
}

fn server() -> QuicConnState<u64> {
    QuicConnState::new(true)
}

#[test]
fn open_ids_start_at_four_and_step_by_four() {
    let mut c = client();
    assert_eq!(c.try_alloc_stream(10), Some(4));
    assert_eq!(c.try_alloc_stream(10), Some(8));
    assert_eq!(c.try_alloc_stream(10), Some(12));
}

#[test]
fn server_open_ids_start_at_five() {
    let mut s = server();
    assert_eq!(s.try_alloc_stream(10), Some(5));
    assert_eq!(s.try_alloc_stream(10), Some(9));
    assert_eq!(s.try_alloc_stream(10), Some(13));
}

#[test]
fn open_without_credit_is_refused_then_parked() {
    let mut c = client();
    // try_open surfaces "would block" without storing anything.
    assert_eq!(c.try_alloc_stream(0), None);
    assert_eq!(c.open_waker, None);
    // poll_open parks the caller's waker instead.
    assert_eq!(c.alloc_or_park(0, 77), None);
    assert_eq!(c.open_waker, Some(77));
}

#[test]
fn credit_grant_wakes_parked_opener() {
    let mut c = client();
    assert_eq!(c.alloc_or_park(0, 77), None);
    // The next drain that sees credit must wake the parked opener.
    let (wakers, to_drain) = c.drain_events(vec![], &vec![], 3);
    assert_eq!(wakers, vec![77]);
    assert_eq!(to_drain, Vec::<u64>::new());
    assert_eq!(c.open_waker, None);
    // The woken task re-polls and now succeeds.
    assert_eq!(c.alloc_or_park(3, 77), Some(4));
}

#[test]
fn drain_without_credit_keeps_opener_parked() {
    let mut c = client();
    assert_eq!(c.alloc_or_park(0, 77), None);
    let (wakers, _) = c.drain_events(vec![], &vec![], 0);
    assert_eq!(wakers, Vec::<u64>::new());
    assert_eq!(c.open_waker, Some(77));
}

#[test]
fn accept_orders_ids_ascending_without_duplicates() {
    // The engine reports readable streams in arbitrary order; accepts
    // come out ascending, and a second report never re-admits an id.
    let mut s = server();
    let (wakers, to_drain) = s.drain_events(vec![8, 4], &vec![], 0);
    assert_eq!(wakers, Vec::<u64>::new());
    assert_eq!(to_drain, Vec::<u64>::new());
    assert_eq!(s.accept_next(false, 1), AcceptStep::Stream { stream_id: 4 });
    assert_eq!(s.accept_next(false, 1), AcceptStep::Stream { stream_id: 8 });
    assert_eq!(s.accept_next(false, 1), AcceptStep::Parked);
    assert_eq!(s.fifo_waker, Some(1));
    // Same readable report again: both ids sit at or below the
    // high-water mark and are not admitted again.
    let _ = s.drain_events(vec![8, 4], &vec![], 0);
    assert_eq!(s.accept_next(false, 2), AcceptStep::Parked);
}

#[test]
fn accept_admission_wakes_accept_task() {
    let mut s = server();
    assert_eq!(s.accept_next(false, 9), AcceptStep::Parked);
    let (wakers, _) = s.drain_events(vec![4], &vec![], 0);
    assert_eq!(wakers, vec![9]);
    assert_eq!(s.fifo_waker, None);
    assert_eq!(s.accept_next(false, 9), AcceptStep::Stream { stream_id: 4 });
}

#[test]
fn accept_on_closed_connection_fails() {
    let mut s = server();
    let _ = s.drain_events(vec![4], &vec![], 0);
    assert_eq!(s.accept_next(true, 1), AcceptStep::Closed);
}

#[test]
fn control_and_unidirectional_ids_are_not_admitted() {
    let mut s = server();
    // 0 is the reserved control stream, 2 and 6 are unidirectional,
    // 5 is the server's own: none joins the accept queue.
    let _ = s.drain_events(vec![0, 2, 6, 5], &vec![], 0);
    assert_eq!(s.accept_next(false, 1), AcceptStep::Parked);
}

#[test]
fn readable_stream_wakes_its_reader() {
    let mut c = client();
    // A read with nothing to deliver parks the reader.
    let (step, wakers) = c.stream_read_step(4, StreamReadReport::Done, false, 50);
    assert_eq!(step, ReadStep::Parked);
    assert_eq!(wakers, Vec::<u64>::new());
    // The stream becoming readable moves that waker to the wake list.
    let (wakers, _) = c.drain_events(vec![4], &vec![], 0);
    assert_eq!(wakers, vec![50]);
    // A later drain has nothing left to wake.
    let (wakers, _) = c.drain_events(vec![4], &vec![], 0);
    assert_eq!(wakers, Vec::<u64>::new());
}

#[test]
fn writable_stream_wakes_its_writer() {
    let mut c = client();
    let (step, _) = c.stream_write_step(4, StreamWriteReport::Done, false, 60);
    assert_eq!(step, WriteStep::Parked);
    let (wakers, _) = c.drain_events(vec![], &vec![4], 0);
    assert_eq!(wakers, vec![60]);
    let (wakers, _) = c.drain_events(vec![], &vec![4], 0);
    assert_eq!(wakers, Vec::<u64>::new());
}

#[test]
fn delivered_bytes_wake_send_task() {
    let mut c = client();
    c.send_waker = Some(99);
    let (step, wakers) = c.stream_read_step(4, StreamReadReport::Data { len: 11, fin: false }, false, 50);
    assert_eq!(step, ReadStep::Delivered { len: 11, fin: false });
    assert_eq!(wakers, vec![99]);
    assert_eq!(c.send_waker, None);
}

#[test]
fn accepted_write_wakes_send_task() {
    let mut c = client();
    c.send_waker = Some(99);
    let (step, wakers) = c.stream_write_step(4, StreamWriteReport::Accepted { len: 11 }, false, 60);
    assert_eq!(step, WriteStep::Accepted { len: 11 });
    assert_eq!(wakers, vec![99]);
}

#[test]
fn read_after_halt_is_end_of_file() {
    // A reader on a draining or closed connection sees a normal
    // end-of-file: zero bytes with the FIN flag.
    let mut c = client();
    let (step, _) = c.stream_read_step(4, StreamReadReport::Done, true, 50);
    assert_eq!(step, ReadStep::AtEof);
}

#[test]
fn write_after_halt_is_broken_pipe() {
    let mut c = client();
    let (step, _) = c.stream_write_step(4, StreamWriteReport::Done, true, 60);
    assert_eq!(step, WriteStep::Broken);
}

#[test]
fn engine_failures_are_surfaced() {
    let mut c = client();
    let (step, _) = c.stream_read_step(4, StreamReadReport::Fail, false, 50);
    assert_eq!(step, ReadStep::Failed);
    let (step, _) = c.stream_write_step(4, StreamWriteReport::Fail, false, 60);
    assert_eq!(step, WriteStep::Failed);
    let (step, _) = c.close_step(CloseReport::Fail);
    assert_eq!(step, CloseStep::Failed);
}

#[test]
fn close_wakes_send_task_and_tolerates_repeats() {
    let mut c = client();
    c.send_waker = Some(99);
    let (step, wakers) = c.close_step(CloseReport::Started);
    assert_eq!(step, CloseStep::Started);
    assert_eq!(wakers, vec![99]);
    // Closing an already-closing connection succeeds with nothing to do.
    let (step, wakers) = c.close_step(CloseReport::Done);
    assert_eq!(step, CloseStep::AlreadyClosing);
    assert_eq!(wakers, Vec::<u64>::new());
}

#[test]
fn connection_close_wakes_every_registered_future_once() {
    let mut c = client();
    // Register one waker of every kind.
    let (step, _) = c.stream_read_step(4, StreamReadReport::Done, false, 1);
    assert_eq!(step, ReadStep::Parked);
    let (step, _) = c.stream_write_step(8, StreamWriteReport::Done, false, 2);
    assert_eq!(step, WriteStep::Parked);
    assert_eq!(c.accept_next(false, 3), AcceptStep::Parked);
    assert_eq!(c.alloc_or_park(0, 4), None);
    c.send_waker = Some(5);
    // The engine reports the connection closed while sending.
    let now = Instant::now();
    let (step, mut wakers) = c.send_blocked(true, None, &now, 6);
    assert_eq!(step, SendBlockedStep::ConnectionClosed);
    wakers.sort();
    assert_eq!(wakers, vec![1, 2, 3, 4, 5]);
    // Every slot is empty afterwards: nobody is woken twice.
    let (wakers, _) = c.drain_events(vec![4], &vec![8], 1);
    assert_eq!(wakers, Vec::<u64>::new());
}

#[test]
fn send_parks_without_deadline() {
    let mut c = client();
    let now = Instant::now();
    let (step, wakers) = c.send_blocked(false, None, &now, 42);
    assert_eq!(step, SendBlockedStep::Park { armed: false });
    assert_eq!(wakers, Vec::<u64>::new());
    assert_eq!(c.send_waker, Some(42));
    assert!(c.timer_deadline.is_none());
}

#[test]
fn send_parks_and_arms_future_deadline() {
    let mut c = client();
    let now = Instant::now();
    let deadline = now + Duration::from_secs(3600);
    let (step, _) = c.send_blocked(false, Some(deadline), &now, 42);
    assert_eq!(step, SendBlockedStep::Park { armed: true });
    assert_eq!(c.send_waker, Some(42));
    assert_eq!(c.timer_deadline, Some(deadline));
    // When the timer fires, the engine's timeout handler must run and
    // the slot is cleared.
    assert!(c.note_timer(true));
    assert!(c.timer_deadline.is_none());
    assert_eq!(c.send_waker, None);
}

#[test]
fn send_retries_at_once_after_elapsed_deadline() {
    // An idle timeout in the past is handled without waiting: the engine
    // runs its timeout handler and the send is retried, with no timer
    // armed and no waker parked.
    let mut c = client();
    let deadline = Instant::now();
    let now = deadline + Duration::from_millis(1);
    let (step, _) = c.send_blocked(false, Some(deadline), &now, 42);
    assert_eq!(step, SendBlockedStep::RetryAfterTimeout);
    assert!(c.timer_deadline.is_none());
    assert_eq!(c.send_waker, None);
}

#[test]
fn unfired_timer_is_released_without_timeout() {
    let mut c = client();
    let now = Instant::now();
    let deadline = now + Duration::from_secs(3600);
    let _ = c.send_blocked(false, Some(deadline), &now, 42);
    assert!(!c.note_timer(false));
    assert!(c.timer_deadline.is_none());
}

#[test]
fn packet_arrival_wakes_send_task() {
    let mut c = client();
    c.send_waker = Some(99);
    let (wakers, _) = c.after_recv(vec![], &vec![], 0);
    assert_eq!(wakers, vec![99]);
    assert_eq!(c.send_waker, None);
}

#[test]
fn dropped_stream_joins_closing_set_until_remote_fin() {
    let mut c = client();
    c.send_waker = Some(99);
    let now = Instant::now();
    // The user handle is dropped while the peer's half is still open.
    let (step, wakers) = c.retire_stream(4, false, false, now);
    assert_eq!(step, RetireStep::Parked);
    assert_eq!(wakers, vec![99]);
    // The stream turning readable with no reader left asks for a drain
    // pass.
    let (wakers, to_drain) = c.drain_events(vec![4], &vec![], 0);
    assert_eq!(wakers, Vec::<u64>::new());
    assert_eq!(to_drain, vec![4]);
    // The drain saw the remote FIN: the stream leaves the closing set.
    c.retire_closing(4, true);
    let (_, to_drain) = c.drain_events(vec![4], &vec![], 0);
    assert_eq!(to_drain, Vec::<u64>::new());
}

#[test]
fn unfinished_drain_keeps_stream_in_closing_set() {
    let mut c = client();
    let now = Instant::now();
    let _ = c.retire_stream(4, false, false, now);
    let (_, to_drain) = c.drain_events(vec![4], &vec![], 0);
    assert_eq!(to_drain, vec![4]);
    c.retire_closing(4, false);
    let (_, to_drain) = c.drain_events(vec![4], &vec![], 0);
    assert_eq!(to_drain, vec![4]);
}

#[test]
fn finished_stream_is_drained_at_once() {
    let mut c = client();
    let now = Instant::now();
    let (step, _) = c.retire_stream(4, false, true, now);
    assert_eq!(step, RetireStep::DrainNow);
    let (_, to_drain) = c.drain_events(vec![4], &vec![], 0);
    assert_eq!(to_drain, Vec::<u64>::new());
}

#[test]
fn dropping_streams_on_closed_connection_is_silent() {
    let mut c = client();
    c.send_waker = Some(99);
    let now = Instant::now();
    let (step, wakers) = c.retire_stream(4, true, false, now);
    assert_eq!(step, RetireStep::ConnClosed);
    assert_eq!(wakers, Vec::<u64>::new());
    assert_eq!(c.send_waker, Some(99));
}

#[test]
fn drain_pass_classification() {
    assert_eq!(drain_step(StreamReadReport::Data { len: 100, fin: false }), DrainStep::Again);
    assert_eq!(drain_step(StreamReadReport::Data { len: 0, fin: true }), DrainStep::Completed);
    assert_eq!(drain_step(StreamReadReport::Done), DrainStep::Parked);
    assert_eq!(drain_step(StreamReadReport::Fail), DrainStep::Completed);
}

#[test]
fn active_stream_count() {
    assert_eq!(active_outbound_streams(None, 3), None);
    assert_eq!(active_outbound_streams(Some(3), 1), Some(2));
    assert_eq!(active_outbound_streams(Some(3), 3), Some(0));
    // The peer may have raised its allowance; the count saturates.
    assert_eq!(active_outbound_streams(Some(3), 5), Some(0));
}

#[test]
fn many_connections_are_independent() {
    // Thirty fresh client connections each allocate their own first
    // identifier without interfering.
    let mut conns: Vec<QuicConnState<u64>> = (0..30).map(|_| client()).collect();
    for c in conns.iter_mut() {
        assert_eq!(c.try_alloc_stream(1), Some(4));
        assert_eq!(c.outbound_next_id, 8);
    }
}

#[test]
fn stream_limit_sequence() {
    // With an allowance of three bidirectional streams and one reserved
    // as the control stream, two opens succeed, the third parks, and
    // freeing credit wakes it within one drain.
    let mut c = client();
    assert_eq!(c.alloc_or_park(2, 7), Some(4));
    assert_eq!(c.alloc_or_park(1, 7), Some(8));
    assert_eq!(c.alloc_or_park(0, 7), None);
    assert_eq!(c.open_waker, Some(7));
    let (wakers, _) = c.drain_events(vec![], &vec![], 1);
    assert_eq!(wakers, vec![7]);
    assert_eq!(c.alloc_or_park(1, 7), Some(12));
}

#[test]
fn echo_shaped_exchange() {
    // The dispatcher-side bookkeeping of one echo round: a write is
    // accepted, the reader parks until the reply is readable, then the
    // bytes are delivered with no FIN; after the peer's FIN the reader
    // sees it set.
    let mut c = client();
    let (step, _) = c.stream_write_step(4, StreamWriteReport::Accepted { len: 11 }, false, 60);
    assert_eq!(step, WriteStep::Accepted { len: 11 });
    let (step, _) = c.stream_read_step(4, StreamReadReport::Done, false, 50);
    assert_eq!(step, ReadStep::Parked);
    let (wakers, _) = c.drain_events(vec![4], &vec![], 0);
    assert_eq!(wakers, vec![50]);
    let (step, _) = c.stream_read_step(4, StreamReadReport::Data { len: 11, fin: false }, false, 50);
    assert_eq!(step, ReadStep::Delivered { len: 11, fin: false });
    let (step, _) = c.stream_read_step(4, StreamReadReport::Data { len: 0, fin: true }, false, 50);
    assert_eq!(step, ReadStep::Delivered { len: 0, fin: true });
}

#[test]
fn id_exhaustion_parks_instead_of_wrapping() {
    let mut c = client();
    c.outbound_next_id = u64::MAX - 3;
    assert_eq!(c.try_alloc_stream(10), None);
    assert_eq!(c.outbound_next_id, u64::MAX - 3);
}

#[test]
fn write_and_read_lengths_carry_through() {
    // The dispatcher never truncates or pads what the engine reported:
    // the byte counts of a round trip pass through unchanged.
    let mut c = client();
    for &len in &[0usize, 1, 1200, 65536, 1_000_000] {
        let (step, _) =
            c.stream_write_step(4, StreamWriteReport::Accepted { len }, false, 60);
        assert_eq!(step, WriteStep::Accepted { len });
        let (step, _) =
            c.stream_read_step(4, StreamReadReport::Data { len, fin: false }, false, 50);
        assert_eq!(step, ReadStep::Delivered { len, fin: false });
    }
    let (step, _) = c.stream_read_step(4, StreamReadReport::Data { len: 0, fin: true }, false, 50);
    assert_eq!(step, ReadStep::Delivered { len: 0, fin: true });
}

#[test]
fn unready_streams_keep_their_wakers() {
    // A drain wakes only what the engine reported ready: a parked reader
    // and writer on other streams stay parked.
    let mut c = client();
    let (step, _) = c.stream_read_step(4, StreamReadReport::Done, false, 50);
    assert_eq!(step, ReadStep::Parked);
    let (step, _) = c.stream_write_step(12, StreamWriteReport::Done, false, 60);
    assert_eq!(step, WriteStep::Parked);
    let (wakers, _) = c.drain_events(vec![8], &vec![16], 0);
    assert_eq!(wakers, Vec::<u64>::new());
    // The right readiness report still finds both.
    let (mut wakers, _) = c.drain_events(vec![4], &vec![12], 0);
    wakers.sort();
    assert_eq!(wakers, vec![50, 60]);
}
