use gain::packet::{
    align, code, data_header_into, data_id, data_note, domain, flow, flow_count, flow_into,
    header_into, index, pad_len, service_states, services_header_into, size, CODE_SERVICES,
    DATA_HEADER_SIZE, DOMAIN_CALL, DOMAIN_DATA, DOMAIN_FLOW, DOMAIN_INFO, HEADER_SIZE,
};

#[test]
fn align_rounds_up_to_eight() {
    assert_eq!(align(0), 0);
    assert_eq!(align(1), 8);
    assert_eq!(align(7), 8);
    assert_eq!(align(8), 8);
    assert_eq!(align(9), 16);
    assert_eq!(align(65529), 65536);
}

#[test]
fn align_is_idempotent_and_never_shrinks() {
    for s in 0usize..200 {
        assert!(align(s) >= s);
        assert!(align(s) < s + 8);
        assert_eq!(align(align(s)), align(s));
    }
}

#[test]
fn pad_len_is_distance_to_alignment() {
    assert_eq!(pad_len(0), 0);
    assert_eq!(pad_len(1), 7);
    assert_eq!(pad_len(8), 0);
    assert_eq!(pad_len(13), 3);
}

#[test]
fn header_bytes_are_little_endian() {
    let mut p = vec![0xffu8; 10];
    header_into(&mut p, 0x01020304, -2, DOMAIN_INFO);
    assert_eq!(p, vec![0x04, 0x03, 0x02, 0x01, 0xfe, 0xff, 1, 0, 0xff, 0xff]);
}

#[test]
fn header_round_trip() {
    for &(s, c, d) in &[
        (8usize, 0i16, DOMAIN_CALL),
        (65536, 32767, DOMAIN_DATA),
        (4294967295, -32768, DOMAIN_FLOW),
        (12345, CODE_SERVICES, DOMAIN_INFO),
    ] {
        let mut p = vec![0u8; HEADER_SIZE];
        header_into(&mut p, s, c, d);
        assert_eq!(size(&p), s);
        assert_eq!(code(&p), c);
        assert_eq!(domain(&p), d);
        assert_eq!(index(&p), 0);
    }
}

#[test]
fn data_header_round_trip() {
    let mut p = vec![0u8; DATA_HEADER_SIZE + 3];
    data_header_into(&mut p, DATA_HEADER_SIZE + 3, 7, 0x7fffffff, -5);
    assert_eq!(size(&p), 19);
    assert_eq!(code(&p), 7);
    assert_eq!(domain(&p), DOMAIN_DATA);
    assert_eq!(data_id(&p), 0x7fffffff);
    assert_eq!(data_note(&p), -5);
    assert_eq!(&p[..16], &[19, 0, 0, 0, 7, 0, 3, 0, 0xff, 0xff, 0xff, 0x7f, 0xfb, 0xff, 0xff, 0xff]);
}

#[test]
fn flow_entries_round_trip() {
    let mut p = vec![0u8; HEADER_SIZE + 3 * 8];
    header_into(&mut p, HEADER_SIZE + 3 * 8, 2, DOMAIN_FLOW);
    flow_into(&mut p, 0, 1, 40);
    flow_into(&mut p, 1, 2, 0);
    flow_into(&mut p, 2, 3, -7);
    assert_eq!(flow_count(&p), 3);
    let f = flow(&p, 0);
    assert_eq!((f.id, f.increment), (1, 40));
    let f = flow(&p, 1);
    assert_eq!((f.id, f.increment), (2, 0));
    let f = flow(&p, 2);
    assert_eq!((f.id, f.increment), (3, -7));
    assert_eq!(&p[8..16], &[1, 0, 0, 0, 40, 0, 0, 0]);
}

#[test]
fn flow_count_ignores_a_partial_entry() {
    let p = vec![0u8; HEADER_SIZE + 8 + 5];
    assert_eq!(flow_count(&p), 1);
    let p = vec![0u8; HEADER_SIZE];
    assert_eq!(flow_count(&p), 0);
}

#[test]
fn services_header_and_states() {
    let mut p = vec![0u8; 10];
    services_header_into(&mut p, 13, 3);
    p.extend_from_slice(&[1, 0, 1]);
    assert_eq!(size(&p), 13);
    assert_eq!(code(&p), CODE_SERVICES);
    assert_eq!(domain(&p), DOMAIN_CALL);
    assert_eq!(service_states(&p), &[1, 0, 1]);
    assert_eq!(&p[8..10], &[3, 0]);
}
