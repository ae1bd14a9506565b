use layer3::frame::{frame_destination, frame_from_read, RecvEvent};
use layer3::{Cabernet, CabernetError, Ipv4, Slot};

/// An IPv4/UDP datagram from `src` to `dst` with a four-byte payload.
fn datagram(src: [u8; 4], dst: [u8; 4]) -> Vec<u8> {
    let mut p = vec![
        0x45, 0x00, 0x00, 0x20, 0x12, 0x34, 0x40, 0x00, 0x40, 0x11, 0x00, 0x00,
    ];
    p.extend_from_slice(&src);
    p.extend_from_slice(&dst);
    p.extend_from_slice(&[0x30, 0x39, 0x00, 0x35, 0x00, 0x0c, 0x00, 0x00]);
    p.extend_from_slice(b"ping");
    p
}

fn not_assigned(r: layer3::Result<Slot>) -> String {
    match r {
        Err(CabernetError::IPNotAssigned(t)) => t,
        other => panic!("expected IPNotAssigned, got {:?}", other),
    }
}

#[test]
fn one_byte_frame_is_rejected() {
    let c: Cabernet<u32> = Cabernet::new();
    assert!(matches!(c.route_frame(&[0x00]), Err(CabernetError::Ipv4HeaderParse(_))));
}

#[test]
fn short_or_wrong_version_frames_are_rejected() {
    let mut c: Cabernet<u32> = Cabernet::new();
    c.create_ue("10.0.0.4", 1).unwrap();
    let p = datagram([10, 0, 0, 9], [10, 0, 0, 4]);
    assert!(matches!(c.route_frame(&p[..19]), Err(CabernetError::Ipv4HeaderParse(_))));
    let mut v6 = p.clone();
    v6[0] = 0x65;
    assert!(matches!(c.route_frame(&v6), Err(CabernetError::Ipv4HeaderParse(_))));
    let mut short_ihl = p.clone();
    short_ihl[0] = 0x44;
    assert!(matches!(c.route_frame(&short_ihl), Err(CabernetError::Ipv4HeaderParse(_))));
    let mut long_ihl = p.clone();
    long_ihl[0] = 0x4f;
    assert!(matches!(c.route_frame(&long_ihl), Err(CabernetError::Ipv4HeaderParse(_))));
    assert_eq!(c.route_frame(&p).unwrap(), Slot::Ue(0));
}

#[test]
fn no_ue_and_no_gateway_means_not_assigned() {
    let c: Cabernet<u32> = Cabernet::new();
    let p = datagram([10, 0, 0, 4], [8, 8, 8, 8]);
    assert_eq!(not_assigned(c.route_frame(&p)), "8.8.8.8");
}

#[test]
fn unknown_destination_without_gateway_is_not_assigned() {
    let mut c: Cabernet<u32> = Cabernet::new();
    c.create_ue("10.0.0.4", 1).unwrap();
    let p = datagram([10, 0, 0, 4], [10, 0, 0, 77]);
    assert_eq!(not_assigned(c.route_frame(&p)), "10.0.0.77");
}

#[test]
fn frame_goes_to_matching_ue_only() {
    let mut c: Cabernet<u32> = Cabernet::new();
    c.create_ue("10.0.0.4", 41).unwrap();
    c.create_ue("10.0.0.5", 42).unwrap();
    let p = datagram([10, 0, 0, 3], [10, 0, 0, 5]);
    let s = c.route_frame(&p).unwrap();
    assert_eq!(s, Slot::Ue(1));
    assert_eq!(c.ue(s).unwrap().dev, 42);
    assert_eq!(c.ue(s).unwrap().ip, "10.0.0.5");
}

#[test]
fn gateway_takes_unmatched_frames() {
    let mut c: Cabernet<u32> = Cabernet::with_internet("10.0.0.3", 7).unwrap();
    c.create_ue("10.0.0.4", 8).unwrap();
    let out = datagram([10, 0, 0, 4], [8, 8, 8, 8]);
    assert_eq!(frame_destination(&out).unwrap(), Ipv4 { a: 8, b: 8, c: 8, d: 8 });
    assert_eq!(c.route_frame(&out).unwrap(), Slot::Gateway);
    assert_eq!(c.ue(Slot::Gateway).unwrap().dev, 7);
    let back = datagram([8, 8, 8, 8], [10, 0, 0, 4]);
    assert_eq!(c.route_frame(&back).unwrap(), Slot::Ue(0));
    let to_gw = datagram([10, 0, 0, 4], [10, 0, 0, 3]);
    assert_eq!(c.route_frame(&to_gw).unwrap(), Slot::Gateway);
}

#[test]
fn poll_order_of_empty_router_is_empty() {
    let c: Cabernet<u32> = Cabernet::new();
    assert!(c.poll_order().is_empty());
}

#[test]
fn poll_order_lists_ues_then_gateway() {
    let mut c: Cabernet<u32> = Cabernet::with_internet("10.0.0.3", 0).unwrap();
    c.create_ue("10.0.0.4", 1).unwrap();
    c.create_ue("10.0.0.5", 2).unwrap();
    assert_eq!(c.poll_order(), vec![Slot::Ue(0), Slot::Ue(1), Slot::Gateway]);
}

#[test]
fn delete_on_empty_router_is_not_assigned() {
    let mut c: Cabernet<u32> = Cabernet::new();
    match c.delete_ue("10.0.0.99") {
        Err(CabernetError::IPNotAssigned(t)) => assert_eq!(t, "10.0.0.99"),
        other => panic!("unexpected {:?}", other),
    }
}

#[test]
fn create_delete_create_succeeds() {
    let mut c: Cabernet<u32> = Cabernet::new();
    c.create_ue("10.0.0.4", 1).unwrap();
    c.delete_ue("10.0.0.4").unwrap();
    assert!(c.get_ue("10.0.0.4").is_err());
    assert_eq!(c.ue_count(), 0);
    c.create_ue("10.0.0.4", 2).unwrap();
    assert_eq!(c.get_ue("10.0.0.4").unwrap(), Slot::Ue(0));
    assert_eq!(c.ue(Slot::Ue(0)).unwrap().netns, "cab-10.0.0.4");
}

#[test]
fn delete_keeps_the_others_in_order() {
    let mut c: Cabernet<u32> = Cabernet::new();
    c.create_ue("10.0.0.4", 4).unwrap();
    c.create_ue("10.0.0.5", 5).unwrap();
    c.create_ue("10.0.0.6", 6).unwrap();
    c.delete_ue("10.0.0.5").unwrap();
    assert_eq!(c.ue(Slot::Ue(0)).unwrap().dev, 4);
    assert_eq!(c.ue(Slot::Ue(1)).unwrap().dev, 6);
    assert!(c.ue(Slot::Ue(2)).is_none());
}

#[test]
fn gateway_is_not_deleted() {
    let mut c: Cabernet<u32> = Cabernet::with_internet("10.0.0.3", 0).unwrap();
    assert!(matches!(c.delete_ue("10.0.0.3"), Err(CabernetError::IPNotAssigned(_))));
    assert_eq!(c.get_ue("10.0.0.3").unwrap(), Slot::Gateway);
}

#[test]
fn duplicate_addresses_are_refused() {
    let mut c: Cabernet<u32> = Cabernet::with_internet("10.0.0.3", 0).unwrap();
    c.create_ue("10.0.0.4", 1).unwrap();
    match c.create_ue("10.0.0.4", 2) {
        Err(CabernetError::IPAlreadyAssigned(t)) => assert_eq!(t, "10.0.0.4"),
        other => panic!("unexpected {:?}", other),
    }
    assert!(matches!(c.check_new_ip("10.0.0.3"), Err(CabernetError::IPAlreadyAssigned(_))));
    assert_eq!(c.check_new_ip("10.0.0.5").unwrap(), Ipv4 { a: 10, b: 0, c: 0, d: 5 });
    assert_eq!(c.ue_count(), 1);
}

#[test]
fn invalid_addresses_are_refused() {
    let mut c: Cabernet<u32> = Cabernet::new();
    match c.create_ue("10.0.0.256", 1) {
        Err(CabernetError::InvalidAddress(t)) => assert_eq!(t, "10.0.0.256"),
        other => panic!("unexpected {:?}", other),
    }
    assert!(matches!(
        Cabernet::with_internet("10.0.0.0.0", 1u32),
        Err(CabernetError::InvalidAddress(_))
    ));
}

#[test]
fn change_ip_and_back_restores_reachability() {
    let mut c: Cabernet<u32> = Cabernet::new();
    c.create_ue("10.0.0.4", 1).unwrap();
    c.create_ue("10.0.0.5", 2).unwrap();
    assert_eq!(c.change_ip("10.0.0.4", "10.0.0.9").unwrap(), Slot::Ue(0));
    assert!(c.get_ue("10.0.0.4").is_err());
    assert_eq!(c.get_ue("10.0.0.9").unwrap(), Slot::Ue(0));
    assert_eq!(c.ue(Slot::Ue(0)).unwrap().netns, "cab-10.0.0.4");
    assert_eq!(c.change_ip("10.0.0.9", "10.0.0.4").unwrap(), Slot::Ue(0));
    assert_eq!(c.get_ue("10.0.0.4").unwrap(), Slot::Ue(0));
    assert_eq!(c.ue(Slot::Ue(0)).unwrap().ip, "10.0.0.4");
    let p = datagram([1, 1, 1, 1], [10, 0, 0, 4]);
    assert_eq!(c.route_frame(&p).unwrap(), Slot::Ue(0));
}

#[test]
fn change_ip_errors() {
    let mut c: Cabernet<u32> = Cabernet::with_internet("10.0.0.3", 0).unwrap();
    c.create_ue("10.0.0.4", 1).unwrap();
    c.create_ue("10.0.0.5", 2).unwrap();
    assert!(matches!(c.change_ip("10.0.0.8", "10.0.0.9"), Err(CabernetError::IPNotAssigned(_))));
    assert!(matches!(c.change_ip("10.0.0.4", "10.0.0.5"), Err(CabernetError::IPAlreadyAssigned(_))));
    assert!(matches!(c.change_ip("10.0.0.4", "10.0.0.3"), Err(CabernetError::IPAlreadyAssigned(_))));
    assert!(matches!(c.change_ip("10.0.0.4", "ten"), Err(CabernetError::InvalidAddress(_))));
    assert_eq!(c.change_ip("10.0.0.4", "10.0.0.4").unwrap(), Slot::Ue(0));
    assert_eq!(c.change_ip("10.0.0.3", "10.0.0.30").unwrap(), Slot::Gateway);
    assert_eq!(c.get_ue("10.0.0.30").unwrap(), Slot::Gateway);
}

#[test]
fn valid_read_yields_the_same_bytes() {
    let p = datagram([10, 0, 0, 4], [8, 8, 8, 8]);
    let r = frame_from_read(RecvEvent::Data(p.clone())).unwrap();
    assert_eq!(r, Some(p));
}

#[test]
fn invalid_read_yields_nothing() {
    let r = frame_from_read(RecvEvent::Data(vec![0x60, 0, 0, 0])).unwrap();
    assert_eq!(r, None);
    let mut p = datagram([10, 0, 0, 4], [8, 8, 8, 8]);
    p[0] = 0x65;
    assert_eq!(frame_from_read(RecvEvent::Data(p)).unwrap(), None);
}

#[test]
fn would_block_yields_nothing() {
    assert_eq!(frame_from_read(RecvEvent::WouldBlock).unwrap(), None);
}

#[test]
fn failed_read_is_an_io_error() {
    let e = std::io::Error::new(std::io::ErrorKind::Other, "gone");
    assert!(matches!(frame_from_read(RecvEvent::Failed(e)), Err(CabernetError::IOError(_))));
}

#[test]
fn default_router_is_empty() {
    let c: Cabernet<u32> = Default::default();
    assert!(c.poll_order().is_empty());
    assert_eq!(c.ue_count(), 0);
    assert!(c.ue(Slot::Gateway).is_none());
}
