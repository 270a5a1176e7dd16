use gain::buf::future::BufReadEvent;
use gain::buf::{Buf, BufResult, Read, ReadStream, ReadWriteStream, DEFAULT_READ_CAPACITY};
use gain::flow::{StreamErrorCode, StreamRecvFuture};
use gain::future::Poll;
use gain::process::{peer_closed_stream, Runtime};
use gain::service::{Service, STREAM_INPUT, STREAM_OUTPUT};
use gain::stream::{Close, CloseStream, RecvStream, RecvWriteStream, WriteStream, STREAM_PEER, STREAM_SELF};
use gain::streams::{
    Recv, Stream, StreamState, Streams, MAX_CREDIT, STREAM_ALL, STREAM_PEER_DATA,
    STREAM_PEER_FLOW, STREAM_SELF_DATA, STREAM_SELF_FLOW,
};
use gain::task::{Action, Tasks, Waker, TOP_TASK};

fn runtime_with_service() -> (Runtime, Service) {
    let mut rt = Runtime::new();
    let (service, _) = Service::try_register(&mut rt.core, "s").unwrap();
    (rt, service)
}

#[test]
fn flag_values() {
    assert_eq!(
        (STREAM_SELF_FLOW, STREAM_SELF_DATA, STREAM_PEER_DATA, STREAM_PEER_FLOW),
        (1, 2, 4, 8)
    );
    assert_eq!(STREAM_ALL, 15);
    assert_eq!(STREAM_INPUT, STREAM_SELF_FLOW | STREAM_PEER_DATA);
    assert_eq!(STREAM_OUTPUT, STREAM_SELF_DATA | STREAM_PEER_FLOW);
    assert_eq!(STREAM_SELF, STREAM_SELF_FLOW | STREAM_SELF_DATA);
    assert_eq!(STREAM_PEER, STREAM_PEER_FLOW | STREAM_PEER_DATA);
    assert_eq!(MAX_CREDIT, i32::MAX as usize);
    assert_eq!(DEFAULT_READ_CAPACITY, 8192);
}

#[test]
fn recv_slot_take() {
    let mut r = Recv::Wake(Waker { task: 3 });
    assert_eq!(r.take_waker(), Some(Waker { task: 3 }));
    assert_eq!(r, Recv::Empty);
    let mut r = Recv::Offset(8);
    assert_eq!(r.take_waker(), None);
    assert_eq!(r, Recv::Offset(8));
    assert_eq!(r.take(), Recv::Offset(8));
    assert_eq!(r, Recv::Empty);
    assert_eq!(Recv::default(), Recv::Empty);
}

#[test]
fn stream_state_flags() {
    let mut s = StreamState::new(1, 2, STREAM_ALL);
    s.listed = true;
    s.clear_flags(STREAM_SELF_FLOW | STREAM_PEER_FLOW);
    assert_eq!(s.flags, STREAM_SELF_DATA | STREAM_PEER_DATA);
    s.detach_closed();
    assert!(s.listed);
    s.clear_flags(STREAM_SELF_DATA | STREAM_PEER_DATA);
    assert_eq!(s.flags, 0);
    s.detach_closed();
    assert!(!s.listed);
}

#[test]
fn table_finds_streams_by_key() {
    let (mut rt, service) = runtime_with_service();
    assert!(service.may_open(&rt, 1));
    assert!(!service.may_open(&rt, -1));
    let a = service.stream(&mut rt, 1);
    let b = service.stream(&mut rt, 2);
    assert!(!service.may_open(&rt, 1));
    assert_eq!(rt.streams.find(0, 1), a.s);
    assert_eq!(rt.streams.find(0, 2), b.s);
    assert_eq!(rt.streams.find(0, 3), None);
    assert_eq!(rt.streams.find(1, 1), None);
    assert!(!Service { code: 1 }.may_open(&rt, 5));
    assert_eq!(Streams::new().find(0, 0), None);
}

#[test]
fn slots_of_dropped_streams_are_used_again() {
    let (mut rt, service) = runtime_with_service();
    let a = service.input_stream(&mut rt, 1);
    let slot = a.s.unwrap().slot;
    let mut state = &mut rt.streams.slots[slot];
    assert_eq!(state.handles, 1);
    state.flags = STREAM_SELF_FLOW;
    a.release(&mut rt).unwrap();
    assert!(!rt.streams.slots[slot].listed);
    assert_eq!(rt.streams.slots[slot].handles, 0);
    let b = service.input_stream(&mut rt, 7);
    assert_eq!(b.s, Some(Stream { slot }));
    assert_eq!(rt.streams.slots[slot].id, 7);
    assert_eq!(rt.streams.slots.len(), 1);
}

#[test]
fn split_counts_handles() {
    let (mut rt, service) = runtime_with_service();
    let stream = service.stream(&mut rt, 1);
    let slot = stream.s.unwrap().slot;
    let (r, w) = stream.split(&mut rt);
    assert_eq!(rt.streams.slots[slot].handles, 2);
    assert_eq!(r.s, w.s);
    let (ro, c) = r.split(&mut rt);
    assert_eq!(c.how, STREAM_SELF_FLOW);
    assert_eq!(rt.streams.slots[slot].handles, 3);
    let (wo, c2) = w.split(&mut rt);
    assert_eq!(c2.how, STREAM_SELF_DATA);
    assert_eq!(rt.streams.slots[slot].handles, 4);
    ro.release(&mut rt).unwrap();
    assert_eq!(rt.streams.slots[slot].flags, STREAM_SELF_DATA | STREAM_PEER_DATA | STREAM_PEER_FLOW);
    // The flag is gone already; the handle is only given up.
    c.release(&mut rt).unwrap();
    assert_eq!(rt.streams.slots[slot].flags, STREAM_SELF_DATA | STREAM_PEER_DATA | STREAM_PEER_FLOW);
    wo.release(&mut rt).unwrap();
    c2.release(&mut rt).unwrap();
    assert_eq!(rt.streams.slots[slot].flags, STREAM_PEER_DATA | STREAM_PEER_FLOW);
    assert_eq!(rt.streams.slots[slot].handles, 0);
    assert!(rt.streams.slots[slot].listed);

    let stream = service.stream(&mut rt, 2);
    let (ro, wo, c) = stream.split3(&mut rt);
    assert_eq!(c.how, STREAM_SELF);
    assert_eq!(rt.streams.slots[ro.s.unwrap().slot].handles, 3);
    assert_eq!(ro.s, wo.s);
    assert_eq!(RecvWriteStream::default().s, None);
    assert_eq!(RecvStream::default().s, None);
    assert_eq!(WriteStream::default().s, None);
    assert_eq!(CloseStream::default().how, 0);
}

#[test]
fn close_operations_wait_for_the_matching_halves() {
    let mut s = RecvWriteStream::new(Some(Stream { slot: 0 }));
    let c = s.close();
    assert_eq!((c.how, c.wait), (STREAM_SELF, STREAM_PEER));
    assert!(s.s.is_none());
    let mut s = RecvStream::new(Some(Stream { slot: 0 }));
    let c = s.close();
    assert_eq!((c.how, c.wait), (STREAM_SELF_FLOW, STREAM_PEER_DATA));
    let mut s = WriteStream::new(Some(Stream { slot: 0 }));
    let c = s.close();
    assert_eq!((c.how, c.wait), (STREAM_SELF_DATA, STREAM_PEER_FLOW));
    let mut s = CloseStream::new(Some(Stream { slot: 0 }), STREAM_SELF);
    let c = s.close();
    assert_eq!((c.how, c.wait), (STREAM_SELF, STREAM_PEER));
    let mut s = CloseStream::new(Some(Stream { slot: 0 }), STREAM_SELF_FLOW);
    let c = s.close();
    assert_eq!((c.how, c.wait), (STREAM_SELF_FLOW, STREAM_PEER_DATA));
}

#[test]
fn from_bidirectional_gives_up_the_other_half() {
    let (mut rt, service) = runtime_with_service();
    rt.core.make_available(0);
    let stream = service.stream(&mut rt, 1);
    let slot = stream.s.unwrap().slot;
    let r = RecvStream::from(stream, &mut rt).unwrap();
    assert_eq!(r.s, Some(Stream { slot }));
    assert_eq!(rt.streams.slots[slot].flags, STREAM_SELF_FLOW | STREAM_PEER_DATA | STREAM_PEER_FLOW);
    assert_eq!(rt.core.send_list.len(), 1);
    let stream = service.stream(&mut rt, 2);
    let w = WriteStream::from(stream, &mut rt).unwrap();
    assert_eq!(rt.streams.slots[w.s.unwrap().slot].flags, STREAM_SELF_DATA | STREAM_PEER_DATA | STREAM_PEER_FLOW);
}

#[test]
fn peer_close_wakes_closers_reader_and_writer() {
    let mut tasks = Tasks::new();
    let a = tasks.spawn().unwrap();
    let b = tasks.spawn().unwrap();
    let c = tasks.spawn().unwrap();
    for _ in 0..4 {
        tasks.next();
    }
    assert!(!tasks.has_ready());
    let mut s = StreamState::new(0, 0, STREAM_ALL);
    s.closers = vec![a, b];
    s.recv = Recv::Wake(c);
    s.writer = Some(a);
    peer_closed_stream(&mut s, STREAM_PEER_DATA, &mut tasks);
    assert_eq!(s.flags, STREAM_SELF_FLOW | STREAM_SELF_DATA | STREAM_PEER_FLOW);
    assert!(s.closers.is_empty());
    assert_eq!(s.recv, Recv::Empty);
    assert_eq!(s.writer, Some(a));
    assert_eq!(tasks.queued(), vec![b.task, a.task, c.task]);
    s.recv = Recv::Offset(16);
    peer_closed_stream(&mut s, STREAM_PEER_FLOW, &mut tasks);
    assert_eq!(s.recv, Recv::Offset(16));
    assert_eq!(s.writer, None);
    assert_eq!(s.flags, STREAM_SELF_FLOW | STREAM_SELF_DATA);
}

#[test]
fn credit_beyond_a_window_is_a_fault() {
    let (mut rt, service) = runtime_with_service();
    let _ = service.output_stream(&mut rt, 1);
    rt.handle_flow(0, 1, i32::MAX).unwrap();
    assert_eq!(rt.handle_flow(0, 1, 1), Err(gain::error::Fault::CreditOutOfBounds));
    assert_eq!(rt.streams.slots[0].writable, MAX_CREDIT);
    rt.handle_flow(0, 1, 0).unwrap();
    assert_eq!(rt.handle_flow(0, 1, 0), Err(gain::error::Fault::StreamAlreadyClosed));
}

#[test]
fn flow_increment_fills_the_window() {
    let mut f = StreamRecvFuture::new(None, 10);
    assert_eq!(f.flow_increment(), 10);
    f.unreceived = i32::MAX - 4;
    assert_eq!(f.flow_increment(), 4);
    f.unsubscribed = u64::MAX;
    f.unreceived = 0;
    assert_eq!(f.flow_increment(), i32::MAX);
    f.unsubscribed = 0;
    assert_eq!(f.flow_increment(), 0);
}

#[test]
fn operations_on_no_stream_are_done_at_once() {
    let mut rt = Runtime::new();
    let w = Waker { task: 1 };
    let mut recv = StreamRecvFuture::new(None, 10);
    assert!(matches!(recv.poll(&mut rt, w), Ok(gain::flow::RecvEvent::Closed(0))));
    let mut write = gain::flow::StreamWriteFuture::new(None, &[1], 0);
    assert!(matches!(write.poll(&mut rt, w), Ok(Poll::Ready(Ok(0)))));
    let mut close = gain::flow::StreamCloseFuture::new(None, 3, 12);
    assert!(matches!(close.poll(&mut rt, w), Ok(Poll::Ready(()))));
    assert!(rt.drop_stream(None, 3).is_ok());
}

#[test]
fn buffer_reads() {
    let mut tasks = Tasks::new();
    let a = tasks.spawn().unwrap();
    tasks.next();
    tasks.next();
    let mut buf = Buf::new(BufResult::Pending);
    let mut read = gain::buf::future::Read {};
    let mut dest = [0u8; 4];
    assert!(matches!(read.poll(&mut buf, &mut dest, a), Poll::Pending));
    assert_eq!(buf.waker, Some(a));
    assert_eq!(buf.fill(&[1, 2, 3, 4, 5, 6], &mut tasks), 6);
    assert_eq!(tasks.queued().len(), 1);
    assert_eq!(buf.len(), 6);
    assert!(matches!(read.poll(&mut buf, &mut dest, a), Poll::Ready(Ok(4))));
    assert_eq!(dest, [1, 2, 3, 4]);
    assert_eq!(buf.as_slice(), &[5, 6]);
    buf.consume(1);
    assert_eq!(buf.as_slice(), &[6]);
    buf.finish(0, &mut tasks);
    assert!(matches!(read.poll(&mut buf, &mut dest, a), Poll::Ready(Ok(1))));
    assert!(matches!(read.poll(&mut buf, &mut dest, a), Poll::Ready(Ok(0))));
    buf.finish(-9, &mut tasks);
    assert!(matches!(
        read.poll(&mut buf, &mut dest, a),
        Poll::Ready(Err(StreamErrorCode(-9)))
    ));
    buf.fill(&[1], &mut tasks);
    buf.consume_all();
    assert_eq!(buf.len(), 0);
}

#[test]
fn buffered_reads_wait_for_enough() {
    let mut buf = Buf::new(BufResult::Pending);
    let w = Waker { task: 2 };
    let mut tasks = Tasks::new();
    let mut read = gain::buf::future::BufRead { min_read: 3 };
    assert_eq!(read.poll(&mut buf, w), BufReadEvent::Pending);
    buf.fill(&[1, 2], &mut tasks);
    assert_eq!(read.poll(&mut buf, w), BufReadEvent::Pending);
    buf.fill(&[3], &mut tasks);
    assert_eq!(read.poll(&mut buf, w), BufReadEvent::Deliver);
    buf.consume(2);
    assert_eq!(read.poll(&mut buf, w), BufReadEvent::Pending);
    // Once the stream has ended, one byte is enough.
    buf.finish(0, &mut tasks);
    assert_eq!(read.poll(&mut buf, w), BufReadEvent::Deliver);
    buf.consume_all();
    assert_eq!(read.poll(&mut buf, w), BufReadEvent::Eof);
    buf.finish(5, &mut tasks);
    assert_eq!(read.poll(&mut buf, w), BufReadEvent::Failed(StreamErrorCode(5)));
}

#[test]
fn buffered_streams_come_with_their_receiver() {
    let (mut rt, service) = runtime_with_service();
    let stream = service.input_stream(&mut rt, 1);
    let s = stream.s;
    let (mut read, receiver, future) = ReadStream::new(stream, &mut rt);
    assert_eq!(receiver.s, s);
    assert_eq!(future.unsubscribed, 8192);
    assert_eq!(read.closer.how, STREAM_SELF_FLOW);
    assert_eq!(read.shared.result, BufResult::Pending);
    assert_eq!(read.buf_read(2).min_read, 2);
    let stream = service.input_stream(&mut rt, 2);
    let (_, _, future) = ReadStream::with_capacity(100, stream, &mut rt);
    assert_eq!(future.unsubscribed, 100);
    let stream = service.stream(&mut rt, 3);
    let s = stream.s;
    let (rw, receiver, future) = ReadWriteStream::new(stream, &mut rt);
    assert_eq!((rw.w.s, receiver.s, rw.r.closer.s), (s, s, s));
    assert_eq!(rw.r.closer.how, STREAM_SELF);
    assert_eq!(future.unsubscribed, 8192);
    let stream = service.stream(&mut rt, 4);
    let (_, _, future) = ReadWriteStream::with_read_capacity(5, stream, &mut rt);
    assert_eq!(future.unsubscribed, 5);
    assert_eq!(ReadStream::default().shared.result, BufResult::Eof);
    assert_eq!(ReadWriteStream::default().r.shared.result, BufResult::Eof);
}

#[test]
fn block_on_cycle() {
    let mut tasks = Tasks::new();
    assert_eq!(tasks.next(), Action::PollTop);
    assert_eq!(tasks.next(), Action::DriveIo);
    assert_eq!(tasks.next(), Action::PollTop);
    let a = tasks.spawn().unwrap();
    let b = tasks.spawn().unwrap();
    assert_eq!((a.task, b.task), (1, 2));
    tasks.wake(a);
    tasks.wake(Waker { task: 9 });
    assert_eq!(tasks.queued().len(), 2);
    assert_eq!(tasks.next(), Action::Run(1));
    tasks.wake(a);
    tasks.wake(Waker { task: TOP_TASK });
    assert!(tasks.wants_rerun());
    assert_eq!(tasks.next(), Action::Run(2));
    assert_eq!(tasks.next(), Action::Run(1));
    // The top-level task was woken: it is polled without I/O in between.
    assert_eq!(tasks.next(), Action::PollTop);
    assert!(!tasks.wants_rerun());
    assert_eq!(tasks.next(), Action::DriveIo);
    assert_eq!(tasks.next(), Action::PollTop);
    tasks.wake_option(None);
    tasks.wake_option(Some(b));
    assert_eq!(tasks.next(), Action::Run(2));
}
