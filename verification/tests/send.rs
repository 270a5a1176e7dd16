use gain::error::Fault;
use gain::future::{InfoSendFuture, Poll, YieldFuture};
use gain::gate::{timeout, Ciovec, Iovec, MAX_RECV_SIZE};
use gain::process::Runtime;
use gain::runtime::Core;
use gain::send::{Place, Reply, SendLink, SendList, Share};
use gain::service::Service;
use gain::task::Waker;

fn core_with_service() -> (Core, Service) {
    let mut core = Core::new();
    let (service, _) = Service::try_register(&mut core, "s").unwrap();
    core.make_available(0);
    (core, service)
}

#[test]
fn ciovec_holds_a_copy() {
    let v = Ciovec::new(&[1, 2, 3]);
    assert_eq!(v.buf, vec![1, 2, 3]);
    assert_eq!(v.buf_len(), 3);
    assert_eq!(Ciovec::default().buf_len(), 0);
    assert_eq!(Iovec::default(), Iovec { buf: 0, buf_len: 0 });
    assert_eq!(MAX_RECV_SIZE, 65536);
}

#[test]
fn timeout_blocks_polls_and_saturates() {
    assert_eq!(timeout(None), -1);
    assert_eq!(timeout(Some(0)), 0);
    assert_eq!(timeout(Some(1_000_000_000)), 1_000_000_000);
    assert_eq!(timeout(Some(0x7fff_ffff_ffff_ffff)), i64::MAX);
    assert_eq!(timeout(Some(0x8000_0000_0000_0000)), i64::MAX);
    assert_eq!(timeout(Some(u128::MAX)), i64::MAX);
}

#[test]
fn reply_states() {
    let mut r = Reply::default();
    assert!(!r.is_expected());
    assert_eq!(r.offset(), None);
    let e = Reply::expected();
    assert!(e.is_expected());
    assert_eq!(e.offset(), None);
    r.set_offset(24);
    assert_eq!(r.offset(), Some(24));
    assert!(!r.is_expected());
}

#[test]
fn links_and_lists() {
    let mut l = SendLink::new(4);
    assert_eq!(l.index(), Some(4));
    assert!(l.is_valid() && !l.is_none());
    assert!(SendLink::none().is_none());
    assert!(!SendLink::invalid().is_valid());
    assert_eq!(SendLink::none().index(), None);
    assert_eq!(SendLink::invalid().index(), None);
    assert_eq!(l.take(), SendLink::new(4));
    assert!(l.is_none());

    let mut q = SendList::default();
    assert!(q.is_valid());
    assert_eq!(q.pop_front(), None);
    for i in 0..4 {
        q.push_back(SendLink::new(i));
    }
    assert_eq!(q.front(), Some(SendLink::new(0)));
    assert_eq!(q.remove(2), SendLink::new(2));
    assert_eq!(q.remove(0), SendLink::new(0));
    assert_eq!(q.pop_front(), Some(SendLink::new(1)));
    assert_eq!(q.pop_front(), Some(SendLink::new(3)));
    assert_eq!(q.len(), 0);
    let old = q.invalidate_unchecked();
    assert!(old.is_valid());
    assert!(!q.is_valid());
    assert!(!SendList::invalid().is_valid());
}

#[test]
fn share_lengths() {
    let s = Share::packet(vec![0; 8], vec![1, 2, 3]);
    assert_eq!(s.unaligned_send_len(), 11);
    assert!(!s.is_sent());
    assert!(!s.is_nop());
    let mut s = Share::default();
    assert!(s.is_nop());
    assert!(s.is_sent());
    assert_eq!(s.target(), None);
    s.reply = Reply::expected();
    assert!(!s.is_nop());
}

#[test]
fn send_vector_has_header_content_and_padding() {
    let (mut core, service) = core_with_service();
    let mut info = service.send_info(&[1, 2, 3]);
    assert!(matches!(info.poll(&mut core, Waker { task: 5 }), Ok(Poll::Pending)));
    {
        let v = core.send_vec();
        assert_eq!(v.len, 3);
        assert_eq!(v.vec[0], &[11, 0, 0, 0, 0, 0, 1, 0]);
        assert_eq!(v.vec[1], &[1, 2, 3]);
        assert_eq!(v.vec[2], &[0, 0, 0, 0, 0]);
    }
    // Three bytes of the header are sent.
    core.sent(3).unwrap();
    {
        let v = core.send_vec();
        assert_eq!(v.len, 3);
        assert_eq!(v.vec[0], &[0, 0, 0, 1, 0]);
        assert_eq!(v.vec[1], &[1, 2, 3]);
    }
    // The rest of the header and one byte of the content.
    core.sent(6).unwrap();
    {
        let v = core.send_vec();
        assert_eq!(v.len, 2);
        assert_eq!(v.vec[0], &[2, 3]);
        assert_eq!(v.vec[1], &[0, 0, 0, 0, 0]);
    }
    // The content and two bytes of the padding.
    core.sent(4).unwrap();
    {
        let v = core.send_vec();
        assert_eq!(v.len, 1);
        assert_eq!(v.vec[0], &[0, 0, 0]);
    }
    assert_eq!(core.sent(4), Err(Fault::SentTooMuch));
    assert!(core.tasks.queued().is_empty());
    core.sent(3).unwrap();
    assert_eq!(core.send_vec().len, 0);
    assert_eq!(core.send_list.len(), 0);
    assert_eq!(core.sent(1), Err(Fault::SentTooMuch));
    assert!(core.sent(0).is_ok());
    assert!(matches!(info.poll(&mut core, Waker { task: 5 }), Ok(Poll::Ready(()))));
    assert!(matches!(info.poll(&mut core, Waker { task: 5 }), Ok(Poll::Ready(()))));
}

#[test]
fn sent_descriptor_wakes_its_task_once() {
    let (mut core, service) = core_with_service();
    let a = core.tasks.spawn().unwrap();
    assert_eq!(core.tasks.next(), gain::task::Action::PollTop);
    assert_eq!(core.tasks.next(), gain::task::Action::Run(a.task));
    let mut info = service.send_info(&[]);
    assert!(matches!(info.poll(&mut core, a), Ok(Poll::Pending)));
    core.sent(8).unwrap();
    core.tasks.wake(a);
    assert_eq!(core.tasks.queued(), vec![a.task]);
}

#[test]
fn slots_are_used_again() {
    let (mut core, service) = core_with_service();
    let mut first = service.send_info(&[1]);
    assert!(matches!(first.poll(&mut core, Waker { task: 1 }), Ok(Poll::Pending)));
    let link = first.op.link;
    core.sent(16).unwrap();
    assert_eq!(core.shares[link.addr - 1].place, Place::Held);
    assert!(matches!(first.poll(&mut core, Waker { task: 1 }), Ok(Poll::Ready(()))));
    assert_eq!(core.shares[link.addr - 1].place, Place::Free);
    let mut second = service.send_info(&[2]);
    assert!(matches!(second.poll(&mut core, Waker { task: 1 }), Ok(Poll::Pending)));
    assert_eq!(second.op.link, link);
    assert_eq!(core.shares.len(), 1);
}

#[test]
fn info_for_an_unregistered_service_is_a_fault() {
    let mut core = Core::new();
    let mut info = InfoSendFuture::new(3, &[1]);
    assert!(matches!(info.poll(&mut core, Waker { task: 1 }), Err(Fault::UnknownService)));
    let mut rt = Runtime::new();
    let mut call = gain::future::CallFuture::new(0, &[]);
    assert!(matches!(call.poll(&mut rt, Waker { task: 1 }), Err(Fault::UnknownService)));
    let mut call = gain::future::CallFuture::new(-1, &[]);
    assert!(matches!(call.poll(&mut rt, Waker { task: 1 }), Err(Fault::UnknownService)));
}

#[test]
fn a_lost_descriptor_is_a_fault() {
    let (mut core, service) = core_with_service();
    let mut info = service.send_info(&[1]);
    assert!(matches!(info.poll(&mut core, Waker { task: 1 }), Ok(Poll::Pending)));
    let mut other = Core::new();
    assert!(matches!(info.poll(&mut other, Waker { task: 1 }), Err(Fault::DescriptorLost)));
}

#[test]
fn yield_is_done_when_it_reaches_the_front() {
    let (mut core, service) = core_with_service();
    let mut info = service.send_info(&[1]);
    let mut y = YieldFuture::new();
    assert!(matches!(info.poll(&mut core, Waker { task: 1 }), Ok(Poll::Pending)));
    assert!(matches!(y.poll(&mut core, Waker { task: 2 }), Ok(Poll::Pending)));
    assert!(!core.front_is_nop());
    assert!(!core.skip_yields());
    assert!(matches!(y.poll(&mut core, Waker { task: 2 }), Ok(Poll::Pending)));
    core.sent(16).unwrap();
    assert!(core.front_is_nop());
    assert!(core.skip_yields());
    assert_eq!(core.send_list.len(), 0);
    assert!(matches!(y.poll(&mut core, Waker { task: 2 }), Ok(Poll::Ready(()))));
}
