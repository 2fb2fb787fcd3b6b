use oblw::error::Error;
use oblw::packet::{assemblePacket, idle_fill, packetize, PACKET_SIZE};

#[test]
fn packet_size_is_sixty_four() {
    assert_eq!(PACKET_SIZE, 64);
}

#[test]
fn assemble_copies_unchanged_when_not_inverted() {
    let mut y = [0x11u8; 64];
    let x: Vec<u8> = (1..=10).collect();
    assert_eq!(assemblePacket(&mut y, x.as_slice(), true), Ok(()));
    assert_eq!(&y[..10], x.as_slice());
    assert_eq!(&y[10..], &[0x11u8; 54][..]);
}

#[test]
fn assemble_complements_when_inverted() {
    let mut y = [0x11u8; 64];
    let x: Vec<u8> = vec![0x00, 0xFF, 0x0F, 0xA5];
    assert_eq!(assemblePacket(&mut y, x.as_slice(), false), Ok(()));
    assert_eq!(&y[..4], &[0xFFu8, 0x00, 0xF0, 0x5A][..]);
    assert_eq!(&y[4..], &[0x11u8; 60][..]);
}

#[test]
fn assemble_takes_a_full_packet() {
    let mut y = [0u8; 64];
    let x: Vec<u8> = (0..64).collect();
    assert_eq!(assemblePacket(&mut y, x.as_slice(), true), Ok(()));
    assert_eq!(&y[..], x.as_slice());
}

#[test]
fn assemble_of_nothing_changes_nothing() {
    let mut y = [0x77u8; 64];
    assert_eq!(assemblePacket(&mut y, &[], false), Ok(()));
    assert_eq!(y, [0x77u8; 64]);
}

#[test]
fn assemble_refuses_more_than_a_packet() {
    let mut y = [0x33u8; 64];
    let x = vec![0x44u8; 65];
    assert_eq!(
        assemblePacket(&mut y, x.as_slice(), true),
        Err(Error::PacketOverflow)
    );
    assert_eq!(y, [0x33u8; 64]);
    assert_eq!(
        assemblePacket(&mut y, x.as_slice(), false),
        Err(Error::PacketOverflow)
    );
    assert_eq!(y, [0x33u8; 64]);
}

#[test]
fn assembling_twice_inverted_restores_the_source() {
    let x: Vec<u8> = (0..=40).map(|i| (i * 6 + 1) as u8).collect();
    let mut once = [0u8; 64];
    assert_eq!(assemblePacket(&mut once, x.as_slice(), false), Ok(()));
    assert_ne!(&once[..x.len()], x.as_slice());
    let mut twice = [0u8; 64];
    assert_eq!(assemblePacket(&mut twice, &once[..x.len()], false), Ok(()));
    assert_eq!(&twice[..x.len()], x.as_slice());
}

#[test]
fn complement_of_every_byte_differs_and_returns() {
    for b in 0..=255u8 {
        let mut once = [0u8; 64];
        assert_eq!(assemblePacket(&mut once, &[b], false), Ok(()));
        assert_ne!(once[0], b);
        let mut twice = [0u8; 64];
        assert_eq!(assemblePacket(&mut twice, &once[..1], false), Ok(()));
        assert_eq!(twice[0], b);
    }
}

#[test]
fn idle_fill_is_all_ones_when_not_inverted() {
    let mut y = [0x12u8; 64];
    idle_fill(&mut y, true);
    assert_eq!(y, [0xFFu8; 64]);
}

#[test]
fn idle_fill_is_all_zeros_when_inverted() {
    let mut y = [0x12u8; 64];
    idle_fill(&mut y, false);
    assert_eq!(y, [0x00u8; 64]);
}

#[test]
fn idle_byte_is_all_ones_as_it_goes_on_the_wire() {
    for polarity in [true, false] {
        let mut idle = [0x12u8; 64];
        idle_fill(&mut idle, polarity);
        let mut data = [0x12u8; 64];
        assert_eq!(assemblePacket(&mut data, &[0xFFu8; 64], polarity), Ok(()));
        assert_eq!(idle, data);
    }
}

#[test]
fn no_bytes_make_no_packet() {
    assert_eq!(packetize(&[]), Vec::<Vec<u8>>::new());
}

#[test]
fn one_byte_makes_one_padded_packet() {
    let packets = packetize(&[0xABu8]);
    let mut expected = vec![0u8; 64];
    expected[0] = 0xAB;
    assert_eq!(packets, vec![expected]);
}

#[test]
fn sixty_four_bytes_make_one_packet() {
    let bytes: Vec<u8> = (0..64).collect();
    assert_eq!(packetize(bytes.as_slice()), vec![bytes.clone()]);
}

#[test]
fn sixty_five_bytes_make_two_packets() {
    let bytes: Vec<u8> = (1..=65).collect();
    let packets = packetize(bytes.as_slice());
    assert_eq!(packets.len(), 2);
    assert_eq!(packets[0], bytes[..64].to_vec());
    let mut last = vec![0u8; 64];
    last[0] = 65;
    assert_eq!(packets[1], last);
}

#[test]
fn every_packet_has_packet_size() {
    for n in [0usize, 1, 63, 64, 65, 127, 128, 129, 1000] {
        let bytes: Vec<u8> = (0..n).map(|i| (i % 251) as u8).collect();
        let packets = packetize(bytes.as_slice());
        assert_eq!(packets.len(), (n + 63) / 64);
        let mut joined: Vec<u8> = Vec::new();
        for p in packets.iter() {
            assert_eq!(p.len(), 64);
            joined.extend_from_slice(p.as_slice());
        }
        assert_eq!(&joined[..n], bytes.as_slice());
        assert!(joined[n..].iter().all(|&b| b == 0));
    }
}
