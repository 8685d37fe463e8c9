use mushrobotics_protocol::address::{Address, LocalAddress};
use mushrobotics_protocol::packet::{unpack_payload, PackError, Packet};
use mushrobotics_protocol::payload::{ByteRamp, Zeroes};

#[test]
fn test_to_parent_pack_u16() {
    let packet = Packet::to_parent(0x3F21u16).unwrap();
    let payload = packet.pack_payload().unwrap();

    let mut expected_payload = [0u8; 32];
    expected_payload[0] = 0xA0;
    expected_payload[1] = 0x00;
    expected_payload[2] = 0x01;
    expected_payload[3] = 0x3F;
    expected_payload[4] = 0x21;

    assert_eq!(payload[0], expected_payload);
}

#[test]
fn test_to_child_pack_u16() {
    let packet = Packet::to_child(0x3214u16).unwrap();
    let payload = packet.pack_payload().unwrap();

    let mut expected_payload = [0u8; 32];
    expected_payload[0] = 0x90;
    expected_payload[1] = 0x00;
    expected_payload[2] = 0x01;
    expected_payload[3] = 0x32;
    expected_payload[4] = 0x14;

    assert_eq!(payload[0], expected_payload);
}

#[test]
fn test_to_network_pack_u16() {
    let packet = Packet::to_address(&[1, 2, 3], &[3, 2, 1], 0x1923u16).unwrap();
    let payload = packet.pack_payload().unwrap();

    let mut expected_payload = [0u8; 32];
    expected_payload[0] = 0x12;
    expected_payload[1] = 0x30;
    expected_payload[2] = 0x32;
    expected_payload[3] = 0x10;
    expected_payload[4] = 0x00;
    expected_payload[5] = 0x01;
    expected_payload[6] = 0x19;
    expected_payload[7] = 0x23;

    assert_eq!(payload[0], expected_payload);
}

#[test]
fn test_to_parent_pack_large() {
    let mut data = [0u32; 32];
    for i in 0..32 {
        data[i] = i as u32;
    }
    let packet = Packet::to_parent(data).unwrap();
    let payload = packet.pack_payload().unwrap();

    let mut expected_payload = [[0u8; 32]; 5];
    expected_payload[0][0] = 0xA0;
    expected_payload[0][1] = 0x00;
    expected_payload[0][2] = 0x05;
    for i in 0..32 {
        let x = (4 * i) + 6;
        expected_payload[x / 32][x % 32] = i as u8;
    }

    assert_eq!(*payload, expected_payload);
}

#[test]
fn test_to_child_pack_large() {
    let mut data = [0u32; 32];
    for i in 0..32 {
        data[i] = i as u32;
    }
    let packet = Packet::to_child(data).unwrap();
    let payload = packet.pack_payload().unwrap();

    let mut expected_payload = [[0u8; 32]; 5];
    expected_payload[0][0] = 0x90;
    expected_payload[0][1] = 0x00;
    expected_payload[0][2] = 0x05;
    for i in 0..32 {
        let x = (4 * i) + 6;
        expected_payload[x / 32][x % 32] = i as u8;
    }

    assert_eq!(*payload, expected_payload);
}

#[test]
fn to_network_pack_large() {
    let mut data = [0u32; 32];
    for i in 0..32 {
        data[i] = i as u32;
    }
    let packet = Packet::to_address(&[1, 2, 3], &[3, 2, 1], data).unwrap();
    let payload = packet.pack_payload().unwrap();

    let mut expected_payload = [[0u8; 32]; 5];
    expected_payload[0][0] = 0x12;
    expected_payload[0][1] = 0x30;
    expected_payload[0][2] = 0x32;
    expected_payload[0][3] = 0x10;
    expected_payload[0][4] = 0x00;
    expected_payload[0][5] = 0x05;
    for i in 0..32 {
        let x = (4 * i) + 9;
        expected_payload[x / 32][x % 32] = i as u8;
    }

    assert_eq!(*payload, expected_payload);
}

#[test]
fn multi_frame_boundary_exact_fit() {
    // 3 header bytes + 61 ramp bytes fill two frames exactly, with no
    // padding left over.
    let packet = Packet::<ByteRamp, 61>::to_parent(ByteRamp).unwrap();
    let frames = packet.pack_payload().unwrap();

    assert_eq!(frames.len(), 2);
    assert_eq!(frames[0][0], 0xA0);
    assert_eq!(frames[0][1], 0x00);
    assert_eq!(frames[0][2], 0x02);
    for i in 0..29 {
        assert_eq!(frames[0][3 + i], (i as u8) + 1);
    }
    for i in 29..61 {
        assert_eq!(frames[1][i - 29], (i as u8) + 1);
    }
}

#[test]
fn multi_frame_boundary_padded_tail() {
    let mut data = [0u32; 32];
    for i in 0..32 {
        data[i] = 0x01020304 * (i as u32 % 4 + 1);
    }
    let packet = Packet::to_parent(data).unwrap();
    let frames = packet.pack_payload().unwrap();

    // 3 header bytes + 128 payload bytes span exactly 5 frames, the
    // last holding 3 payload bytes and 29 bytes of zero padding.
    assert_eq!(frames.len(), 5);
    let mut stream = Vec::new();
    for frame in frames.iter() {
        stream.extend_from_slice(frame);
    }
    let mut expected = Vec::new();
    for value in data.iter() {
        expected.extend_from_slice(&value.to_be_bytes());
    }
    assert_eq!(&stream[3..131], &expected[..]);
    for j in 131..160 {
        assert_eq!(stream[j], 0);
    }
}

#[test]
fn capacity_boundary() {
    // A 2097117-byte payload plus its 3 header bytes needs exactly
    // 65535 frames, the most the two-byte frame-count field can hold;
    // one byte more pushes it to 65536 and fails.
    assert!(Packet::<Zeroes, 2097117>::to_parent(Zeroes).is_ok());
    assert_eq!(
        PackError::NotEnoughSpace,
        Packet::<Zeroes, 2097118>::to_parent(Zeroes).err().unwrap()
    );
    assert_eq!(
        PackError::NotEnoughSpace,
        Packet::<Zeroes, 2097118>::to_child(Zeroes).err().unwrap()
    );
    assert_eq!(
        PackError::NotEnoughSpace,
        Packet::<Zeroes, 2097118>::to_address(&[1], &[2], Zeroes).err().unwrap()
    );
}

#[test]
fn length_field_is_big_endian() {
    // 3 header bytes + 8163 payload bytes span 256 frames: 0x0100.
    let packet = Packet::<Zeroes, 8163>::to_parent(Zeroes).unwrap();
    let frames = packet.pack_payload().unwrap();
    assert_eq!(frames.len(), 256);
    assert_eq!(frames[0][1], 0x01);
    assert_eq!(frames[0][2], 0x00);
}

#[test]
fn unpack_to_parent_u16() {
    let frames = Packet::to_parent(0x3F21u16).unwrap().pack_payload().unwrap();
    let (address, window) = unpack_payload(&frames, 2).unwrap();

    assert_eq!(Address::Local(LocalAddress::ToParent), address);
    assert_eq!(vec![0x3F, 0x21], window);
}

#[test]
fn unpack_network_large() {
    let mut data = [0u32; 32];
    for i in 0..32 {
        data[i] = (i as u32) * 0x10101 + 7;
    }
    let frames = Packet::to_address(&[1, 2, 3], &[3, 2, 1], data)
        .unwrap()
        .pack_payload()
        .unwrap();
    let (address, window) = unpack_payload(&frames, 128).unwrap();

    assert_eq!(
        Address::Network { from: vec![1, 2, 3], to: vec![3, 2, 1] },
        address
    );
    let mut expected = Vec::new();
    for value in data.iter() {
        expected.extend_from_slice(&value.to_be_bytes());
    }
    assert_eq!(expected, window);
}

#[test]
fn unpack_fewer_frames_than_declared_is_truncated() {
    let mut data = [0u32; 32];
    for i in 0..32 {
        data[i] = i as u32;
    }
    let frames = Packet::to_parent(data).unwrap().pack_payload().unwrap();
    assert_eq!(5, frames.len());

    assert_eq!(
        PackError::TruncatedInput,
        unpack_payload(&frames[..4], 128).unwrap_err()
    );
    assert_eq!(
        PackError::TruncatedInput,
        unpack_payload(&[], 128).unwrap_err()
    );
}

#[test]
fn unpack_window_beyond_frames_is_truncated() {
    let frames = Packet::to_parent(0x0102u16).unwrap().pack_payload().unwrap();
    assert_eq!(1, frames.len());

    assert_eq!(
        PackError::TruncatedInput,
        unpack_payload(&frames, 64).unwrap_err()
    );
}

#[test]
fn unpack_without_terminators_is_malformed() {
    let frames = [[0x11u8; 32]];
    assert_eq!(
        PackError::MalformedAddress,
        unpack_payload(&frames, 2).unwrap_err()
    );
}
