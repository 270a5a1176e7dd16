use gain::error::Fault;
use gain::flow::{RecvEvent, StreamErrorCode, WriteAllError};
use gain::future::{Poll, YieldFuture};
use gain::packet::{
    code, data_header_into, data_id, domain, flow_into, header_into, services_header_into, size,
    CODE_SERVICES, DOMAIN_CALL, DOMAIN_DATA, DOMAIN_FLOW, DOMAIN_INFO,
};
use gain::process::Runtime;
use gain::runtime::RegistrationError;
use gain::send::Place;
use gain::service::Service;
use gain::stream::{Close, Recv, Write};
use gain::streams::{STREAM_PEER_DATA, STREAM_PEER_FLOW, STREAM_SELF_DATA, STREAM_SELF_FLOW};
use gain::task::{Action, Waker};

/// A host that takes whatever is sent and delivers what was put into its
/// inbox.
struct Host {
    inbox: Vec<u8>,
    sent: Vec<u8>,
    waited: Vec<bool>,
}

impl Host {
    fn new() -> Self {
        Host { inbox: Vec::new(), sent: Vec::new(), waited: Vec::new() }
    }

    /// Queues a packet for delivery, padded to the alignment.
    fn deliver(&mut self, packet: &[u8]) {
        self.inbox.extend_from_slice(packet);
        while self.inbox.len() % 8 != 0 {
            self.inbox.push(0);
        }
    }

    /// Takes the first packet out of what was sent.
    fn take_packet(&mut self) -> Option<Vec<u8>> {
        if self.sent.len() < 8 {
            return None;
        }
        let n = size(&self.sent);
        let aligned = (n + 7) / 8 * 8;
        if self.sent.len() < aligned {
            return None;
        }
        let p: Vec<u8> = self.sent[..n].to_vec();
        self.sent.drain(..aligned);
        Some(p)
    }
}

/// One drive-loop iteration against the host.
fn drive(rt: &mut Runtime, host: &mut Host) -> Result<(), Fault> {
    let mut received: Vec<u8> = Vec::new();
    let mut sent = 0;
    if let Some(plan) = rt.prepare_io()? {
        let mut capacity = 0;
        for i in 0..plan.recv.len {
            capacity += plan.recv.vec[i].buf_len;
        }
        for i in 0..plan.send.len {
            host.sent.extend_from_slice(plan.send.vec[i]);
            sent += plan.send.vec[i].len();
        }
        host.waited.push(plan.wait);
        let n = capacity.min(host.inbox.len());
        received = host.inbox.drain(..n).collect();
    }
    rt.io(&received, sent, 0)
}

fn packet(code: i16, domain: u8, content: &[u8]) -> Vec<u8> {
    let mut p = vec![0u8; 8];
    header_into(&mut p, 8 + content.len(), code, domain);
    p.extend_from_slice(content);
    p
}

fn registry_info(flags: &[u8]) -> Vec<u8> {
    let mut p = vec![0u8; 10];
    services_header_into(&mut p, 10 + flags.len(), flags.len() as u16);
    p[6] = DOMAIN_INFO;
    p.extend_from_slice(flags);
    p
}

fn flow_packet(code: i16, entries: &[(i32, i32)]) -> Vec<u8> {
    let mut p = vec![0u8; 8 + 8 * entries.len()];
    header_into(&mut p, 8 + 8 * entries.len(), code, DOMAIN_FLOW);
    for (i, &(id, inc)) in entries.iter().enumerate() {
        flow_into(&mut p, i, id, inc);
    }
    p
}

fn data_packet(code: i16, id: i32, note: i32, data: &[u8]) -> Vec<u8> {
    let mut p = vec![0u8; 16];
    data_header_into(&mut p, 16 + data.len(), code, id, note);
    p.extend_from_slice(data);
    p
}

fn w(task: usize) -> Waker {
    Waker { task }
}

/// Registers a service and sends its registration; the host then reports the
/// given availability.
fn register(rt: &mut Runtime, host: &mut Host, name: &str) -> Service {
    let (service, mut reg) = Service::try_register(&mut rt.core, name).unwrap();
    let task = rt.core.tasks.spawn().unwrap();
    assert!(matches!(reg.poll(&mut rt.core, task), Ok(Poll::Pending)));
    while !matches!(reg.poll(&mut rt.core, task), Ok(Poll::Ready(()))) {
        drive(rt, host).unwrap();
    }
    let p = host.take_packet().unwrap();
    assert_eq!(code(&p), CODE_SERVICES);
    assert_eq!(domain(&p), DOMAIN_CALL);
    assert_eq!(&p[8..10], &[1, 0]);
    assert_eq!(p[10] as usize, name.len());
    assert_eq!(&p[11..], name.as_bytes());
    service
}

fn set_avail(rt: &mut Runtime, host: &mut Host, flags: &[u8]) {
    host.deliver(&registry_info(flags));
    drive(rt, host).unwrap();
}

#[test]
fn echo_call_returns_the_payload() {
    let mut rt = Runtime::new();
    let mut host = Host::new();
    let service = register(&mut rt, &mut host, "echo");
    assert_eq!(service.code, 0);
    set_avail(&mut rt, &mut host, &[1]);

    let mut call = service.call(&[0x01, 0x02, 0x03]);
    assert!(matches!(call.poll(&mut rt, w(7)), Ok(Poll::Pending)));
    drive(&mut rt, &mut host).unwrap();
    let p = host.take_packet().unwrap();
    assert_eq!(p, vec![11, 0, 0, 0, 0, 0, DOMAIN_CALL, 0, 1, 2, 3]);
    assert_eq!(rt.core.services[0].replies.links.len(), 1);
    assert!(matches!(call.poll(&mut rt, w(7)), Ok(Poll::Pending)));

    host.deliver(&packet(0, DOMAIN_CALL, &p[8..]));
    drive(&mut rt, &mut host).unwrap();
    assert_eq!(rt.core.services[0].replies.links.len(), 0);
    match call.poll(&mut rt, w(7)) {
        Ok(Poll::Ready(reply)) => assert_eq!(reply, &[0x01, 0x02, 0x03]),
        other => panic!("{:?}", other.map(|_| ())),
    }
    assert!(!rt.recv_buf.in_use);
    assert_eq!(rt.recv_buf.head.off, rt.recv_buf.head.end);
}

#[test]
fn availability_gates_calls() {
    let mut rt = Runtime::new();
    let mut host = Host::new();
    let service = register(&mut rt, &mut host, "s");
    set_avail(&mut rt, &mut host, &[0]);

    let mut first = service.call(&[1]);
    let mut second = service.call(&[2]);
    assert!(matches!(first.poll(&mut rt, w(11)), Ok(Poll::Pending)));
    assert!(matches!(second.poll(&mut rt, w(12)), Ok(Poll::Pending)));
    assert_eq!(rt.core.send_list.links.len(), 0);
    assert_eq!(rt.core.services[0].avail_or_blocked.links.len(), 2);
    assert_eq!(rt.core.shares[first.link.addr - 1].place, Place::Blocked(0));
    drive(&mut rt, &mut host).unwrap();
    assert!(host.take_packet().is_none());

    set_avail(&mut rt, &mut host, &[1]);
    assert!(rt.core.services[0].is_avail());
    assert_eq!(rt.core.send_list.links.len(), 2);
    assert_eq!(rt.core.send_list.links[0], first.link);
    assert_eq!(rt.core.send_list.links[1], second.link);
    drive(&mut rt, &mut host).unwrap();
    drive(&mut rt, &mut host).unwrap();
    let p1 = host.take_packet().unwrap();
    let p2 = host.take_packet().unwrap();
    assert_eq!(&p1[8..], &[1]);
    assert_eq!(&p2[8..], &[2]);

    // The replies come in the order of the calls.
    host.deliver(&packet(0, DOMAIN_CALL, &[10]));
    drive(&mut rt, &mut host).unwrap();
    assert!(matches!(second.poll(&mut rt, w(12)), Ok(Poll::Pending)));
    match first.poll(&mut rt, w(11)) {
        Ok(Poll::Ready(reply)) => assert_eq!(reply, &[10]),
        _ => panic!("first call not done"),
    }
    host.deliver(&packet(0, DOMAIN_CALL, &[20]));
    drive(&mut rt, &mut host).unwrap();
    match second.poll(&mut rt, w(12)) {
        Ok(Poll::Ready(reply)) => assert_eq!(reply, &[20]),
        _ => panic!("second call not done"),
    }

    // Unavailable again: a third call waits in the blocked queue.
    set_avail(&mut rt, &mut host, &[0]);
    let mut third = service.call(&[3]);
    assert!(matches!(third.poll(&mut rt, w(13)), Ok(Poll::Pending)));
    assert_eq!(rt.core.send_list.links.len(), 0);
    assert_eq!(rt.core.services[0].avail_or_blocked.links.len(), 1);
}

#[test]
fn unavailability_sweeps_the_send_queue_in_order() {
    let mut rt = Runtime::new();
    let mut host = Host::new();
    let a = register(&mut rt, &mut host, "a");
    let b = register(&mut rt, &mut host, "b");
    set_avail(&mut rt, &mut host, &[1, 1]);

    let mut a1 = a.send_info(&[1]);
    let mut b1 = b.send_info(&[2]);
    let mut a2 = a.send_info(&[3]);
    let mut y = YieldFuture::new();
    assert!(matches!(a1.poll(&mut rt.core, w(1)), Ok(Poll::Pending)));
    assert!(matches!(b1.poll(&mut rt.core, w(2)), Ok(Poll::Pending)));
    assert!(matches!(y.poll(&mut rt.core, w(3)), Ok(Poll::Pending)));
    assert!(matches!(a2.poll(&mut rt.core, w(4)), Ok(Poll::Pending)));
    assert_eq!(rt.core.send_list.links.len(), 4);

    rt.core.make_unavailable(0);
    let left: Vec<_> = rt.core.send_list.links.iter().copied().collect();
    assert_eq!(left, vec![b1.op.link, y.op.link]);
    let blocked: Vec<_> = rt.core.services[0].avail_or_blocked.links.iter().copied().collect();
    assert_eq!(blocked, vec![a1.op.link, a2.op.link]);
    for link in rt.core.send_list.links.iter() {
        let share = &rt.core.shares[link.addr - 1];
        assert_ne!(share.target(), Some(0));
    }

    rt.core.make_available(0);
    let all: Vec<_> = rt.core.send_list.links.iter().copied().collect();
    assert_eq!(all, vec![b1.op.link, y.op.link, a1.op.link, a2.op.link]);
    assert!(!rt.core.services[0].avail_or_blocked.valid);
}

#[test]
fn registry_diff_flushes_only_what_became_available() {
    let mut rt = Runtime::new();
    let mut host = Host::new();
    let s0 = register(&mut rt, &mut host, "zero");
    let s1 = register(&mut rt, &mut host, "one");
    let s2 = register(&mut rt, &mut host, "two");
    assert_eq!((s0.code, s1.code, s2.code), (0, 1, 2));
    let mut c0 = s0.call(&[0]);
    let mut c1 = s1.call(&[1]);
    let mut c2 = s2.call(&[2]);
    assert!(matches!(c0.poll(&mut rt, w(1)), Ok(Poll::Pending)));
    assert!(matches!(c1.poll(&mut rt, w(2)), Ok(Poll::Pending)));
    assert!(matches!(c2.poll(&mut rt, w(3)), Ok(Poll::Pending)));
    assert_eq!(rt.core.send_list.links.len(), 0);

    host.deliver(&registry_info(&[1, 0, 1]));
    drive(&mut rt, &mut host).unwrap();
    assert!(rt.core.services[0].is_avail());
    assert!(!rt.core.services[1].is_avail());
    assert!(rt.core.services[2].is_avail());
    let queued: Vec<_> = rt.core.send_list.links.iter().copied().collect();
    assert_eq!(queued, vec![c0.link, c2.link]);
    assert_eq!(rt.core.services[1].avail_or_blocked.links.len(), 1);
    assert_eq!(rt.core.services[1].avail_or_blocked.links[0], c1.link);
}

#[test]
fn registry_packet_with_too_many_flags_is_a_fault() {
    let mut rt = Runtime::new();
    let mut host = Host::new();
    let _ = register(&mut rt, &mut host, "only");
    host.deliver(&registry_info(&[1, 1]));
    assert_eq!(drive(&mut rt, &mut host), Err(Fault::UnknownService));
}

#[test]
fn write_all_follows_the_credit() {
    let mut rt = Runtime::new();
    let mut host = Host::new();
    let service = register(&mut rt, &mut host, "sink");
    set_avail(&mut rt, &mut host, &[1]);
    let mut stream = service.output_stream(&mut rt, 4);
    let handle = stream.s.unwrap();
    assert_eq!(rt.streams.slots[handle.slot].flags, STREAM_SELF_DATA | STREAM_PEER_FLOW);

    let data: Vec<u8> = (0..100u8).collect();
    let mut write = stream.write_all(&data);
    assert!(matches!(write.poll(&mut rt, w(5)), Ok(Poll::Pending)));
    assert_eq!(rt.streams.slots[handle.slot].writer, Some(w(5)));
    drive(&mut rt, &mut host).unwrap();
    assert!(host.take_packet().is_none());

    host.deliver(&flow_packet(0, &[(4, 40)]));
    drive(&mut rt, &mut host).unwrap();
    assert_eq!(rt.streams.slots[handle.slot].writable, 40);
    assert_eq!(rt.streams.slots[handle.slot].writer, None);
    assert!(matches!(write.poll(&mut rt, w(5)), Ok(Poll::Pending)));
    assert_eq!(rt.streams.slots[handle.slot].writable, 0);
    drive(&mut rt, &mut host).unwrap();
    let p = host.take_packet().unwrap();
    assert_eq!(domain(&p), DOMAIN_DATA);
    assert_eq!(size(&p), 16 + 40);
    assert_eq!(data_id(&p), 4);
    assert_eq!(&p[16..], &data[..40]);

    // The first packet is sent; the rest waits for credit.
    assert!(matches!(write.poll(&mut rt, w(5)), Ok(Poll::Pending)));
    assert_eq!(write.pending.len(), 60);
    host.deliver(&flow_packet(0, &[(4, 60)]));
    drive(&mut rt, &mut host).unwrap();
    assert!(matches!(write.poll(&mut rt, w(5)), Ok(Poll::Pending)));
    drive(&mut rt, &mut host).unwrap();
    let p = host.take_packet().unwrap();
    assert_eq!(size(&p), 16 + 60);
    assert_eq!(&p[16..], &data[40..]);
    assert!(matches!(write.poll(&mut rt, w(5)), Ok(Poll::Ready(Ok(())))));
}

#[test]
fn write_is_trimmed_to_the_credit() {
    let mut rt = Runtime::new();
    let mut host = Host::new();
    let service = register(&mut rt, &mut host, "sink");
    set_avail(&mut rt, &mut host, &[1]);
    let mut stream = service.output_stream(&mut rt, 0);
    host.deliver(&flow_packet(0, &[(0, 5)]));
    drive(&mut rt, &mut host).unwrap();
    let mut write = stream.write(&[9; 12]);
    assert!(matches!(write.poll(&mut rt, w(1)), Ok(Poll::Pending)));
    assert_eq!(write.len, 5);
    drive(&mut rt, &mut host).unwrap();
    assert!(matches!(write.poll(&mut rt, w(1)), Ok(Poll::Ready(Ok(5)))));
    let p = host.take_packet().unwrap();
    assert_eq!(&p[16..], &[9; 5]);
}

#[test]
fn write_after_peer_closed_flow_writes_nothing() {
    let mut rt = Runtime::new();
    let mut host = Host::new();
    let service = register(&mut rt, &mut host, "sink");
    set_avail(&mut rt, &mut host, &[1]);
    let mut stream = service.output_stream(&mut rt, 0);
    host.deliver(&flow_packet(0, &[(0, 0)]));
    drive(&mut rt, &mut host).unwrap();
    let mut write = stream.write(&[1, 2, 3]);
    assert!(matches!(write.poll(&mut rt, w(1)), Ok(Poll::Ready(Ok(0)))));
    let mut all = stream.write_all(&[1, 2, 3]);
    assert!(matches!(
        all.poll(&mut rt, w(1)),
        Ok(Poll::Ready(Err(WriteAllError::WriteZero)))
    ));
}

#[test]
fn negative_increment_is_the_write_error() {
    let mut rt = Runtime::new();
    let mut host = Host::new();
    let service = register(&mut rt, &mut host, "sink");
    set_avail(&mut rt, &mut host, &[1]);
    let mut stream = service.output_stream(&mut rt, 0);
    let handle = stream.s.unwrap();
    host.deliver(&flow_packet(0, &[(0, -3), (0, 0)]));
    drive(&mut rt, &mut host).unwrap();
    assert_eq!(rt.streams.slots[handle.slot].write_err, -3);
    assert_eq!(rt.streams.slots[handle.slot].flags, STREAM_SELF_DATA);
    let mut write = stream.write(&[1]);
    assert!(matches!(
        write.poll(&mut rt, w(1)),
        Ok(Poll::Ready(Err(StreamErrorCode(-3))))
    ));
}

#[test]
fn recv_subscribes_and_delivers() {
    let mut rt = Runtime::new();
    let mut host = Host::new();
    let service = register(&mut rt, &mut host, "source");
    set_avail(&mut rt, &mut host, &[1]);
    let mut stream = service.input_stream(&mut rt, 9);
    let mut recv = stream.recv(10);
    assert!(matches!(recv.poll(&mut rt, w(2)), Ok(RecvEvent::Pending)));
    assert_eq!(recv.unsubscribed, 0);
    assert_eq!(recv.unreceived, 10);
    drive(&mut rt, &mut host).unwrap();
    let p = host.take_packet().unwrap();
    assert_eq!(p, vec![16, 0, 0, 0, 0, 0, DOMAIN_FLOW, 0, 9, 0, 0, 0, 10, 0, 0, 0]);

    host.deliver(&data_packet(0, 9, 0, &[1, 2, 3, 4]));
    drive(&mut rt, &mut host).unwrap();
    assert!(rt.recv_buf.in_use);
    match recv.poll(&mut rt, w(2)) {
        Ok(RecvEvent::Data(data, note)) => {
            assert_eq!(data, &[1, 2, 3, 4]);
            assert_eq!(note, 0);
        }
        _ => panic!("no data"),
    }
    assert_eq!(recv.unreceived, 6);
    recv.accept(&mut rt, 4).unwrap();
    assert_eq!(recv.unreceived, 10);
    assert!(matches!(recv.poll(&mut rt, w(2)), Ok(RecvEvent::Pending)));
    drive(&mut rt, &mut host).unwrap();
    let p = host.take_packet().unwrap();
    assert_eq!(&p[8..], &[9, 0, 0, 0, 4, 0, 0, 0]);

    // The peer closes with a note.
    host.deliver(&data_packet(0, 9, 77, &[]));
    drive(&mut rt, &mut host).unwrap();
    assert!(matches!(recv.poll(&mut rt, w(2)), Ok(RecvEvent::Closed(77))));
}

#[test]
fn recv_with_zero_capacity_is_drained_at_once() {
    let mut rt = Runtime::new();
    let mut host = Host::new();
    let service = register(&mut rt, &mut host, "source");
    set_avail(&mut rt, &mut host, &[1]);
    let mut stream = service.input_stream(&mut rt, 1);
    let queued = rt.core.send_list.links.len();
    let mut recv = stream.recv(0);
    assert!(matches!(recv.poll(&mut rt, w(2)), Ok(RecvEvent::Drained)));
    assert_eq!(rt.core.send_list.links.len(), queued);
    drive(&mut rt, &mut host).unwrap();
    assert!(host.take_packet().is_none());
}

#[test]
fn data_beyond_the_subscription_is_a_fault() {
    let mut rt = Runtime::new();
    let mut host = Host::new();
    let service = register(&mut rt, &mut host, "source");
    set_avail(&mut rt, &mut host, &[1]);
    let mut stream = service.input_stream(&mut rt, 1);
    let mut recv = stream.recv(2);
    assert!(matches!(recv.poll(&mut rt, w(2)), Ok(RecvEvent::Pending)));
    host.deliver(&data_packet(0, 1, 0, &[1, 2, 3]));
    drive(&mut rt, &mut host).unwrap();
    assert!(matches!(recv.poll(&mut rt, w(2)), Err(Fault::DataExceedsSubscription)));
}

#[test]
fn packets_for_unknown_streams_are_faults() {
    let mut rt = Runtime::new();
    let mut host = Host::new();
    let _ = register(&mut rt, &mut host, "source");
    set_avail(&mut rt, &mut host, &[1]);
    host.deliver(&flow_packet(0, &[(3, 1)]));
    assert_eq!(drive(&mut rt, &mut host), Err(Fault::UnknownStream));

    let mut rt = Runtime::new();
    let mut host = Host::new();
    let _ = register(&mut rt, &mut host, "source");
    host.deliver(&data_packet(0, 3, 0, &[1]));
    assert_eq!(drive(&mut rt, &mut host), Err(Fault::UnknownStream));
}

#[test]
fn half_close_keeps_the_flow_half() {
    let mut rt = Runtime::new();
    let mut host = Host::new();
    let service = register(&mut rt, &mut host, "duplex");
    set_avail(&mut rt, &mut host, &[1]);
    let stream = service.stream(&mut rt, 2);
    let handle = stream.s.unwrap();
    let mut close = gain::flow::StreamCloseFuture::new(stream.s, STREAM_SELF_DATA, STREAM_PEER_DATA);
    assert!(matches!(close.poll(&mut rt, w(3)), Ok(Poll::Pending)));
    assert_eq!(
        rt.streams.slots[handle.slot].flags,
        STREAM_SELF_FLOW | STREAM_PEER_DATA | STREAM_PEER_FLOW
    );
    drive(&mut rt, &mut host).unwrap();
    let p = host.take_packet().unwrap();
    assert_eq!(p, vec![16, 0, 0, 0, 0, 0, DOMAIN_DATA, 0, 2, 0, 0, 0, 0, 0, 0, 0]);

    host.deliver(&data_packet(0, 2, 0, &[]));
    drive(&mut rt, &mut host).unwrap();
    assert_eq!(rt.core.tasks.has_ready(), true);
    assert!(matches!(close.poll(&mut rt, w(3)), Ok(Poll::Ready(()))));
    assert_eq!(rt.streams.slots[handle.slot].flags, STREAM_SELF_FLOW | STREAM_PEER_FLOW);
    assert!(rt.streams.slots[handle.slot].listed);
    assert!(rt.streams.contains(0, 2));

    // The flow halves close; the stream leaves the table.
    host.deliver(&flow_packet(0, &[(2, 0)]));
    drive(&mut rt, &mut host).unwrap();
    assert_eq!(rt.streams.slots[handle.slot].flags, STREAM_SELF_FLOW);
    rt.drop_stream(Some(handle), STREAM_SELF_FLOW).unwrap();
    assert_eq!(rt.streams.slots[handle.slot].flags, 0);
    assert!(!rt.streams.slots[handle.slot].listed);
    assert!(!rt.streams.contains(0, 2));
    drive(&mut rt, &mut host).unwrap();
    let p = host.take_packet().unwrap();
    assert_eq!(p, vec![16, 0, 0, 0, 0, 0, DOMAIN_FLOW, 0, 2, 0, 0, 0, 0, 0, 0, 0]);
}

#[test]
fn close_sees_a_peer_that_closed_first() {
    let mut rt = Runtime::new();
    let mut host = Host::new();
    let service = register(&mut rt, &mut host, "source");
    set_avail(&mut rt, &mut host, &[1]);
    let mut stream = service.input_stream(&mut rt, 5);
    let handle = stream.s.unwrap();
    host.deliver(&data_packet(0, 5, 0, &[]));
    drive(&mut rt, &mut host).unwrap();
    assert_eq!(rt.streams.slots[handle.slot].flags, STREAM_SELF_FLOW);
    let mut close = stream.close();
    assert!(stream.s.is_none());
    assert!(matches!(close.poll(&mut rt, w(3)), Ok(Poll::Ready(()))));
    assert!(rt.streams.slots[handle.slot].closers.is_empty());
    assert!(!rt.streams.contains(0, 5));
}

#[test]
fn yields_wake_in_order_without_touching_the_host() {
    let mut rt = Runtime::new();
    let mut host = Host::new();
    let a = rt.core.tasks.spawn().unwrap();
    let b = rt.core.tasks.spawn().unwrap();
    let mut order: Vec<usize> = Vec::new();
    let mut futures = vec![YieldFuture::new(), YieldFuture::new()];
    let mut yields = vec![0, 0];
    let mut steps = 0;
    while yields[0] + yields[1] < 4 {
        steps += 1;
        assert!(steps < 100);
        match rt.core.tasks.next() {
            Action::PollTop => {}
            Action::Run(id) => {
                let i = if id == a.task { 0 } else { 1 };
                order.push(id);
                let waker = if i == 0 { a } else { b };
                if let Ok(Poll::Ready(())) = futures[i].poll(&mut rt.core, waker) {
                    yields[i] += 1;
                    futures[i] = YieldFuture::new();
                    assert!(matches!(futures[i].poll(&mut rt.core, waker), Ok(Poll::Pending)));
                }
            }
            Action::DriveIo => drive(&mut rt, &mut host).unwrap(),
        }
    }
    assert_eq!(yields, vec![2, 2]);
    assert_eq!(&order[..6], &[a.task, b.task, a.task, b.task, a.task, b.task]);
    assert!(host.sent.is_empty());
    assert!(host.waited.iter().all(|&wait| !wait));
}

#[test]
fn registration_limits() {
    let mut rt = Runtime::new();
    let (s, _) = Service::try_register(&mut rt.core, "x").unwrap();
    assert_eq!(s.code, 0);
    assert!(matches!(
        Service::try_register(&mut rt.core, "x"),
        Err(RegistrationError::NameAlreadyRegistered)
    ));
    let (s, _) = Service::try_register(&mut rt.core, "y").unwrap();
    assert_eq!(s.code, 1);
    assert_eq!(rt.core.names.len(), 2);
}

#[test]
fn the_32767th_registration_fails() {
    let mut rt = Runtime::new();
    for i in 0..32765u32 {
        rt.core.names.push(format!("service{}", i).into_bytes());
        rt.core.services.push(gain::runtime::ServiceState::new_unavail());
    }
    // The 32766th is the last that is taken.
    let (s, _) = Service::try_register(&mut rt.core, "last").unwrap();
    assert_eq!(s.code, 32765);
    assert!(matches!(
        Service::try_register(&mut rt.core, "one too many"),
        Err(RegistrationError::TooManyServices)
    ));
    assert!(matches!(
        Service::try_register(&mut rt.core, "last"),
        Err(RegistrationError::NameAlreadyRegistered)
    ));
    assert_eq!(rt.core.services.len(), 32766);
    assert_eq!(rt.core.names.len(), 32766);
}

#[test]
fn info_packet_waits_for_its_receiver() {
    let mut rt = Runtime::new();
    let mut host = Host::new();
    let service = register(&mut rt, &mut host, "news");
    set_avail(&mut rt, &mut host, &[1]);
    let listener = service.recv_info();
    assert!(matches!(listener.poll(&mut rt, w(4)), Ok(None)));
    host.deliver(&packet(0, DOMAIN_INFO, &[5, 6]));
    host.deliver(&packet(0, DOMAIN_INFO, &[7]));
    drive(&mut rt, &mut host).unwrap();
    assert!(rt.recv_buf.in_use);
    // The second packet is not dispatched while the first is held.
    drive(&mut rt, &mut host).unwrap();
    match listener.poll(&mut rt, w(4)) {
        Ok(Some(info)) => assert_eq!(info, &[5, 6]),
        _ => panic!("no info"),
    }
    drive(&mut rt, &mut host).unwrap();
    match listener.poll(&mut rt, w(4)) {
        Ok(Some(info)) => assert_eq!(info, &[7]),
        _ => panic!("no info"),
    }
    assert!(matches!(listener.poll(&mut rt, w(4)), Ok(None)));
}

#[test]
fn a_packet_is_never_delivered_in_parts() {
    let mut rt = Runtime::new();
    let mut host = Host::new();
    let service = register(&mut rt, &mut host, "news");
    set_avail(&mut rt, &mut host, &[1]);
    let listener = service.recv_info();
    assert!(matches!(listener.poll(&mut rt, w(4)), Ok(None)));
    let content: Vec<u8> = (0..40u8).collect();
    let p = packet(0, DOMAIN_INFO, &content);
    // The host hands the packet over in three pieces.
    for piece in [&p[..5], &p[5..20], &p[20..]] {
        assert!(matches!(listener.poll(&mut rt, w(4)), Ok(None)));
        host.inbox.extend_from_slice(piece);
        drive(&mut rt, &mut host).unwrap();
    }
    match listener.poll(&mut rt, w(4)) {
        Ok(Some(info)) => assert_eq!(info, &content[..]),
        _ => panic!("no info"),
    }
}

#[test]
fn close_waits_for_a_peer_that_closes_later() {
    let mut rt = Runtime::new();
    let mut host = Host::new();
    let service = register(&mut rt, &mut host, "source");
    set_avail(&mut rt, &mut host, &[1]);
    let mut stream = service.input_stream(&mut rt, 5);
    let handle = stream.s.unwrap();
    let task = rt.core.tasks.spawn().unwrap();
    while rt.core.tasks.next() != Action::Run(task.task) {}
    assert!(!rt.core.tasks.has_ready());
    let mut close = stream.close();
    assert!(matches!(close.poll(&mut rt, task), Ok(Poll::Pending)));
    assert_eq!(rt.streams.slots[handle.slot].closers, vec![task]);
    assert_eq!(rt.streams.slots[handle.slot].flags, STREAM_PEER_DATA);
    assert!(rt.streams.contains(0, 5));
    drive(&mut rt, &mut host).unwrap();
    assert!(!rt.core.tasks.has_ready());
    host.deliver(&data_packet(0, 5, 0, &[]));
    drive(&mut rt, &mut host).unwrap();
    assert_eq!(rt.core.tasks.queued(), vec![task.task]);
    assert!(rt.streams.slots[handle.slot].closers.is_empty());
    assert!(!rt.streams.contains(0, 5));
    assert!(matches!(close.poll(&mut rt, task), Ok(Poll::Ready(()))));
    assert!(close.s.is_none());
}

#[test]
fn a_listener_leaves_no_offset_behind() {
    let mut rt = Runtime::new();
    let mut host = Host::new();
    let service = register(&mut rt, &mut host, "peer");
    set_avail(&mut rt, &mut host, &[1]);
    assert_eq!(rt.core.services[0].info_recv, gain::streams::Recv::Empty);
    let listener = service.recv_info();
    assert!(matches!(listener.poll(&mut rt, w(6)), Ok(None)));
    assert_eq!(rt.core.services[0].info_recv, gain::streams::Recv::Wake(w(6)));
    host.deliver(&packet(0, DOMAIN_INFO, &[1]));
    drive(&mut rt, &mut host).unwrap();
    assert_eq!(rt.core.services[0].info_recv, gain::streams::Recv::Offset(0));
    assert!(matches!(listener.poll(&mut rt, w(6)), Ok(Some(_))));
    // The listener is given up: no offset of a packet is left with the
    // service, and the receive buffer holds nothing.
    assert_eq!(rt.core.services[0].info_recv, gain::streams::Recv::Wake(w(6)));
    assert!(!rt.recv_buf.in_use);
    assert_eq!(rt.recv_buf.head.off, rt.recv_buf.head.end);
}

#[test]
fn stream_packets_for_an_unavailable_service_are_blocked() {
    let mut rt = Runtime::new();
    let mut host = Host::new();
    let service = register(&mut rt, &mut host, "sink");
    set_avail(&mut rt, &mut host, &[1]);
    let mut stream = service.output_stream(&mut rt, 1);
    host.deliver(&flow_packet(0, &[(1, 10)]));
    drive(&mut rt, &mut host).unwrap();
    set_avail(&mut rt, &mut host, &[0]);
    let mut write = stream.write(&[1, 2]);
    assert!(matches!(write.poll(&mut rt, w(1)), Ok(Poll::Pending)));
    assert_eq!(rt.core.send_list.len(), 0);
    assert_eq!(rt.core.services[0].avail_or_blocked.len(), 1);
    drive(&mut rt, &mut host).unwrap();
    assert!(host.take_packet().is_none());
    set_avail(&mut rt, &mut host, &[1]);
    drive(&mut rt, &mut host).unwrap();
    let p = host.take_packet().unwrap();
    assert_eq!(&p[16..], &[1, 2]);
    assert!(matches!(write.poll(&mut rt, w(1)), Ok(Poll::Ready(Ok(2)))));
}

#[test]
fn the_host_may_wait_only_when_nothing_is_ready() {
    let mut rt = Runtime::new();
    let mut host = Host::new();
    drive(&mut rt, &mut host).unwrap();
    assert_eq!(host.waited, vec![true]);
    let task = rt.core.tasks.spawn().unwrap();
    drive(&mut rt, &mut host).unwrap();
    assert_eq!(host.waited, vec![true, false]);
    assert_eq!(rt.core.tasks.next(), Action::PollTop);
    assert_eq!(rt.core.tasks.next(), Action::Run(task.task));
    rt.core.tasks.wake(Waker { task: 0 });
    drive(&mut rt, &mut host).unwrap();
    assert_eq!(host.waited, vec![true, false, false]);
}

#[test]
fn the_host_cannot_send_more_than_was_offered() {
    let mut rt = Runtime::new();
    assert_eq!(rt.io(&[], 1, 0), Err(Fault::SentTooMuch));
    assert_eq!(rt.io(&[0; 65537], 0, 0), Err(Fault::ReceivedTooMuch));
    assert!(rt.io(&[], 0, 1).is_ok());
}

#[test]
fn reply_without_a_call_is_a_fault() {
    let mut rt = Runtime::new();
    let mut host = Host::new();
    let _ = register(&mut rt, &mut host, "s");
    host.deliver(&packet(0, DOMAIN_CALL, &[]));
    assert_eq!(drive(&mut rt, &mut host), Err(Fault::UnexpectedReply));
    let mut rt = Runtime::new();
    let mut host = Host::new();
    host.deliver(&packet(3, DOMAIN_CALL, &[]));
    assert_eq!(drive(&mut rt, &mut host), Err(Fault::UnknownService));
    let mut rt = Runtime::new();
    let mut host = Host::new();
    host.deliver(&packet(3, DOMAIN_INFO, &[]));
    assert_eq!(drive(&mut rt, &mut host), Err(Fault::UnknownService));
    let mut rt = Runtime::new();
    let mut host = Host::new();
    host.deliver(&[4, 0, 0, 0, 0, 0, 0, 0]);
    assert_eq!(drive(&mut rt, &mut host), Err(Fault::PacketSizeOutOfBounds));
}

#[test]
fn close_packets_give_their_slots_back() {
    let mut rt = Runtime::new();
    let mut host = Host::new();
    let service = register(&mut rt, &mut host, "duplex");
    set_avail(&mut rt, &mut host, &[1]);
    let stream = service.stream(&mut rt, 1);
    let before = rt.core.shares.len();
    stream.release(&mut rt).unwrap();
    assert_eq!(rt.core.send_list.len(), 2);
    let links: Vec<_> = rt.core.send_list.links.iter().copied().collect();
    for link in &links {
        assert!(rt.core.shares[link.addr - 1].detached);
        assert_eq!(rt.core.shares[link.addr - 1].place, Place::Sending);
    }
    drive(&mut rt, &mut host).unwrap();
    drive(&mut rt, &mut host).unwrap();
    let flow = host.take_packet().unwrap();
    let data = host.take_packet().unwrap();
    assert_eq!(domain(&flow), DOMAIN_FLOW);
    assert_eq!(domain(&data), DOMAIN_DATA);
    for link in &links {
        assert_eq!(rt.core.shares[link.addr - 1].place, Place::Free);
    }
    assert!(rt.core.shares.len() <= before + 2);
    // The slots serve the next descriptors.
    let mut info = service.send_info(&[]);
    assert!(matches!(info.poll(&mut rt.core, w(1)), Ok(Poll::Pending)));
    assert!(links.contains(&info.op.link));
}

#[test]
fn a_call_is_sent_in_pieces_and_then_waits_for_its_reply() {
    let mut rt = Runtime::new();
    let mut host = Host::new();
    let service = register(&mut rt, &mut host, "s");
    set_avail(&mut rt, &mut host, &[1]);
    let task = rt.core.tasks.spawn().unwrap();
    while rt.core.tasks.next() != Action::Run(task.task) {}
    let mut call = service.call(&[1, 2, 3, 4, 5]);
    assert!(matches!(call.poll(&mut rt, task), Ok(Poll::Pending)));
    let link = call.link;
    assert!(rt.prepare_io().unwrap().is_some());
    rt.io(&[], 6, 0).unwrap();
    assert_eq!(rt.core.shares[link.addr - 1].sent, 6);
    assert_eq!(rt.core.shares[link.addr - 1].place, Place::Sending);
    {
        let plan = rt.prepare_io().unwrap().unwrap();
        assert_eq!(plan.send.len, 3);
        assert_eq!(plan.send.vec[0], &[0, 0]);
        assert_eq!(plan.send.vec[1], &[1, 2, 3, 4, 5]);
        assert_eq!(plan.send.vec[2], &[0, 0, 0]);
    }
    rt.io(&[], 10, 0).unwrap();
    assert_eq!(rt.core.shares[link.addr - 1].place, Place::Replying(0));
    assert_eq!(rt.core.services[0].replies.len(), 1);
    // The task is woken by the reply, not by the sending.
    assert!(!rt.core.tasks.has_ready());
    assert!(matches!(call.poll(&mut rt, task), Ok(Poll::Pending)));
    host.deliver(&packet(0, DOMAIN_CALL, &[]));
    drive(&mut rt, &mut host).unwrap();
    assert_eq!(rt.core.tasks.queued(), vec![task.task]);
}

#[test]
fn write_all_ends_with_the_peers_error() {
    let mut rt = Runtime::new();
    let mut host = Host::new();
    let service = register(&mut rt, &mut host, "sink");
    set_avail(&mut rt, &mut host, &[1]);
    let mut stream = service.output_stream(&mut rt, 0);
    host.deliver(&flow_packet(0, &[(0, -8), (0, 0)]));
    drive(&mut rt, &mut host).unwrap();
    let mut all = stream.write_all(&[1, 2, 3]);
    assert!(matches!(
        all.poll(&mut rt, w(1)),
        Ok(Poll::Ready(Err(WriteAllError::Stream(StreamErrorCode(-8)))))
    ));
}

#[test]
fn accepting_more_than_can_be_counted_is_a_fault() {
    let mut rt = Runtime::new();
    let mut host = Host::new();
    let service = register(&mut rt, &mut host, "source");
    set_avail(&mut rt, &mut host, &[1]);
    let mut stream = service.input_stream(&mut rt, 1);
    let mut recv = stream.recv(1);
    recv.unsubscribed = u64::MAX;
    assert_eq!(recv.accept(&mut rt, 1), Err(Fault::CapacityOutOfBounds));
    assert_eq!(recv.unsubscribed, u64::MAX);
    assert!(recv.accept(&mut rt, 0).is_ok());
    assert_eq!(recv.unreceived, i32::MAX);
    assert_eq!(recv.unsubscribed, u64::MAX - i32::MAX as u64);
}

#[test]
fn the_host_call_after_a_resume_does_not_wait() {
    let mut rt = Runtime::new();
    let mut host = Host::new();
    drive(&mut rt, &mut host).unwrap();
    assert_eq!(host.waited, vec![true]);
    rt.io(&[], 0, gain::gate::FLAG_STARTED_OR_RESUMED).unwrap();
    assert!(rt.resumed);
    rt.io(&[], 0, 0).unwrap();
    assert!(rt.resumed);
    drive(&mut rt, &mut host).unwrap();
    assert!(!rt.resumed);
    drive(&mut rt, &mut host).unwrap();
    assert_eq!(host.waited, vec![true, false, true]);
}
