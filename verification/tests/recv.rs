use gain::error::Fault;
use gain::gate::MAX_RECV_SIZE;
use gain::packet::{header_into, DOMAIN_INFO};
use gain::recv::{RecvBuf, RecvSpan, RECV_BUF_SIZE};

fn packet_of(size: usize, fill: u8) -> Vec<u8> {
    let mut p = vec![fill; (size + 7) / 8 * 8];
    header_into(&mut p, size, 0, DOMAIN_INFO);
    for b in p[size..].iter_mut() {
        *b = 0;
    }
    p
}

fn capacity(buf: &RecvBuf) -> usize {
    let plan = buf.plan().unwrap();
    plan.vec[..plan.len].iter().map(|v| v.buf_len).sum()
}

#[test]
fn empty_buffer_receives_into_the_first_half() {
    let buf = RecvBuf::default();
    assert_eq!(buf.buf.len(), RECV_BUF_SIZE);
    assert_eq!(RECV_BUF_SIZE, 131072);
    let plan = buf.plan().unwrap();
    assert_eq!(plan.len, 1);
    assert_eq!((plan.vec[0].buf, plan.vec[0].buf_len), (0, MAX_RECV_SIZE));
    assert!(!buf.has_packet());
}

#[test]
fn partial_header_asks_for_the_rest_of_the_header() {
    let mut buf = RecvBuf::default();
    buf.receive(&[16, 0, 0]).unwrap();
    assert_eq!(buf.head, RecvSpan { off: 0, end: 3 });
    let plan = buf.plan().unwrap();
    assert_eq!(plan.len, 1);
    assert_eq!((plan.vec[0].buf, plan.vec[0].buf_len), (3, 5));
    assert_eq!(buf.receive(&[0; 6]), Err(Fault::ReceivedTooMuch));
    assert_eq!(buf.head, RecvSpan { off: 0, end: 3 });
}

#[test]
fn partial_packet_in_first_half_asks_for_the_rest_of_the_half() {
    let mut buf = RecvBuf::default();
    let p = packet_of(100, 7);
    buf.receive(&p[..50]).unwrap();
    assert!(!buf.has_packet());
    let plan = buf.plan().unwrap();
    assert_eq!(plan.len, 1);
    assert_eq!((plan.vec[0].buf, plan.vec[0].buf_len), (50, MAX_RECV_SIZE - 50));
    buf.receive(&p[50..]).unwrap();
    assert!(buf.has_packet());
    assert_eq!(buf.head_slice(), &p[..]);
}

#[test]
fn no_receive_while_a_whole_packet_waits() {
    let mut buf = RecvBuf::default();
    buf.receive(&packet_of(12, 1)).unwrap();
    assert!(buf.has_packet());
    assert_eq!(buf.plan().unwrap().len, 0);
    assert_eq!(buf.receive(&[1]), Err(Fault::ReceivedTooMuch));
    assert!(buf.receive(&[]).is_ok());
}

#[test]
fn consumed_advances_by_the_aligned_size() {
    let mut buf = RecvBuf::default();
    let mut bytes = packet_of(12, 1);
    bytes.extend_from_slice(&packet_of(9, 2));
    buf.receive(&bytes).unwrap();
    assert_eq!(buf.head, RecvSpan { off: 0, end: 32 });
    buf.consumed().unwrap();
    assert_eq!(buf.head, RecvSpan { off: 16, end: 32 });
    let p = buf.consume(16).unwrap().to_vec();
    assert_eq!(p.len(), 9);
    assert_eq!(p[8], 2);
    assert_eq!(buf.head, RecvSpan { off: 0, end: 0 });
}

#[test]
fn consume_checks_the_offset_and_the_span() {
    let mut buf = RecvBuf::default();
    let p = packet_of(24, 1);
    buf.receive(&p[..16]).unwrap();
    assert_eq!(buf.consume(8).err(), Some(Fault::ConsumedOffsetNotAtHead));
    assert_eq!(buf.consume(0).err(), Some(Fault::HeadSpanTooShort));
    assert_eq!(buf.consumed(), Err(Fault::HeadSpanTooShort));
    assert_eq!(buf.head, RecvSpan { off: 0, end: 16 });
}

#[test]
fn sizes_out_of_bounds_are_faults() {
    let mut buf = RecvBuf::default();
    let mut p = vec![0u8; 8];
    header_into(&mut p, 4, 0, DOMAIN_INFO);
    buf.receive(&p).unwrap();
    assert_eq!(buf.consumed(), Err(Fault::PacketSizeOutOfBounds));

    let mut buf = RecvBuf::default();
    let mut p = vec![0u8; 8];
    header_into(&mut p, 65537, 0, DOMAIN_INFO);
    buf.receive(&p).unwrap();
    assert_eq!(buf.plan().err(), Some(Fault::PacketSizeOutOfBounds));
    assert_eq!(buf.receive(&[0]), Err(Fault::PacketSizeOutOfBounds));
}

#[test]
fn a_packet_across_the_middle_stays_in_one_piece() {
    let mut buf = RecvBuf::default();
    // Fill the first half up to 16 bytes before its end with one packet.
    let first = packet_of(MAX_RECV_SIZE - 16, 3);
    buf.receive(&first).unwrap();
    assert_eq!(buf.head, RecvSpan { off: 0, end: MAX_RECV_SIZE - 16 });
    // It is whole, so nothing is received until it is consumed.
    assert_eq!(capacity(&buf), 0);
    // The second packet starts at the end of the first and is cut by the
    // host: its header arrives along with the first.
    let mut buf = RecvBuf::default();
    let second = packet_of(48, 9);
    let mut bytes = first.clone();
    bytes.extend_from_slice(&second[..16]);
    buf.receive(&bytes).unwrap();
    assert_eq!(buf.head, RecvSpan { off: 0, end: MAX_RECV_SIZE });
    buf.consumed().unwrap();
    assert_eq!(buf.head, RecvSpan { off: MAX_RECV_SIZE - 16, end: MAX_RECV_SIZE });
    assert!(!buf.has_packet());
    // The rest of the packet goes behind it, across the middle; what comes
    // after goes to the start of the buffer.
    let plan = buf.plan().unwrap();
    assert_eq!(plan.len, 2);
    assert_eq!((plan.vec[0].buf, plan.vec[0].buf_len), (MAX_RECV_SIZE, 32));
    assert_eq!((plan.vec[1].buf, plan.vec[1].buf_len), (0, MAX_RECV_SIZE - 16));
    let third = packet_of(20, 5);
    let mut more = second[16..].to_vec();
    more.extend_from_slice(&third);
    buf.receive(&more).unwrap();
    assert_eq!(buf.head, RecvSpan { off: MAX_RECV_SIZE - 16, end: MAX_RECV_SIZE + 32 });
    assert_eq!(buf.tail, RecvSpan { off: 0, end: 24 });
    assert!(buf.has_packet());
    assert_eq!(capacity(&buf), 0);
    let p = buf.consume(MAX_RECV_SIZE - 16).unwrap().to_vec();
    assert_eq!(p, &second[..48]);
    // The tail span has become the head span.
    assert_eq!(buf.head, RecvSpan { off: 0, end: 24 });
    assert_eq!(buf.tail, RecvSpan { off: 0, end: 0 });
    let p = buf.consume(0).unwrap().to_vec();
    assert_eq!(p, &third[..20]);
}

#[test]
fn part_of_the_rest_of_a_packet_across_the_middle() {
    let mut buf = RecvBuf::default();
    let first = packet_of(MAX_RECV_SIZE - 8, 3);
    let second = packet_of(64, 9);
    let mut bytes = first.clone();
    bytes.extend_from_slice(&second[..8]);
    buf.receive(&bytes).unwrap();
    buf.consumed().unwrap();
    assert_eq!(capacity(&buf), 56 + MAX_RECV_SIZE - 8);
    buf.receive(&second[8..30]).unwrap();
    assert_eq!(buf.head, RecvSpan { off: MAX_RECV_SIZE - 8, end: MAX_RECV_SIZE + 22 });
    assert_eq!(buf.tail, RecvSpan { off: 0, end: 0 });
    buf.receive(&second[30..]).unwrap();
    assert!(buf.has_packet());
    assert_eq!(buf.consume(MAX_RECV_SIZE - 8).unwrap(), &second[..64]);
    assert_eq!(buf.head, RecvSpan { off: 0, end: 0 });
}

#[test]
fn claim_marks_the_head_packet_as_held() {
    let mut buf = RecvBuf::default();
    buf.receive(&packet_of(8, 0)).unwrap();
    assert!(!buf.in_use);
    buf.claim();
    assert!(buf.in_use);
    buf.consumed().unwrap();
    assert!(!buf.in_use);
}

#[test]
fn packets_survive_any_cutting() {
    // A stream of packets of many sizes, handed over in pieces of many sizes.
    let mut stream: Vec<u8> = Vec::new();
    let mut sizes: Vec<usize> = Vec::new();
    let mut seed: u32 = 12345;
    let mut next = move || {
        seed = seed.wrapping_mul(1664525).wrapping_add(1013904223);
        (seed >> 8) as usize
    };
    for i in 0..300 {
        let size = match i % 7 {
            0 => 8,
            1 => 65536,
            2 => 9 + next() % 100,
            3 => 30000 + next() % 30000,
            _ => 8 + next() % 3000,
        };
        sizes.push(size);
        stream.extend_from_slice(&packet_of(size, (i % 251) as u8));
    }
    let mut buf = RecvBuf::default();
    let mut sent = 0;
    let mut got = 0;
    let mut rounds = 0;
    while got < sizes.len() {
        rounds += 1;
        assert!(rounds < 1_000_000);
        let room = capacity(&buf);
        if room > 0 && sent < stream.len() {
            let n = (1 + next() % 70000).min(room).min(stream.len() - sent);
            buf.receive(&stream[sent..sent + n]).unwrap();
            sent += n;
        }
        while buf.has_packet() {
            let off = buf.head.off;
            let expect = packet_of(sizes[got], (got % 251) as u8);
            let p = buf.consume(off).unwrap();
            assert_eq!(p.len(), sizes[got]);
            assert!(p == &expect[..sizes[got]]);
            got += 1;
        }
    }
    assert_eq!(sent, stream.len());
    assert_eq!(buf.head, RecvSpan { off: 0, end: 0 });
}
