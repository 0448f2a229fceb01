use ogg::checksum::{CRC_POLYNOMIAL, CRC_TABLE};
use ogg::{ByteCursor, OggError, OggPacket, OggPacketType};

fn pattern(len: usize, step: usize, offset: usize, modulus: usize) -> Vec<u8> {
    (0..len).map(|i| ((i * step + offset) % modulus) as u8).collect()
}

/// The page of stream 0x11223344 with index 7 that holds `abc`.
fn small_page_bytes() -> Vec<u8> {
    vec![
        0x4f, 0x67, 0x67, 0x53, 0x00, 0x02, 0x08, 0x07, 0x06, 0x05, 0x04, 0x03, 0x02, 0x01, 0x44,
        0x33, 0x22, 0x11, 0x07, 0x00, 0x00, 0x00, 0xa5, 0x66, 0x80, 0x38, 0x01, 0x03, 0x61, 0x62,
        0x63,
    ]
}

fn small_page() -> OggPacket {
    let mut packet = OggPacket::new(0x11223344, OggPacketType::BeginOfStream, 7);
    packet.granule_position = 0x0102030405060708;
    assert_eq!(packet.write(b"abc"), 3);
    packet
}

#[test]
fn crc_table_entries() {
    assert_eq!(CRC_POLYNOMIAL, 0x04c11db7);
    assert_eq!(CRC_TABLE[0], 0);
    assert_eq!(CRC_TABLE[1], 0x04c11db7);
    assert_eq!(CRC_TABLE[2], 0x09823b6e);
    assert_eq!(CRC_TABLE[128], 0x690ce0ee);
    assert_eq!(CRC_TABLE[255], 0xb1f740b4);
    for i in 0..256u32 {
        let mut r = i << 24;
        for _ in 0..8 {
            r = (r << 1) ^ (if r & 0x8000_0000 != 0 { 0x04c11db7 } else { 0 });
        }
        assert_eq!(CRC_TABLE[i as usize], r);
    }
}

#[test]
fn crc_known_values() {
    assert_eq!(OggPacket::crc(0, b""), 0);
    assert_eq!(OggPacket::crc(0x1234, b""), 0x1234);
    assert_eq!(OggPacket::crc(0, &[1]), 0x04c11db7);
    assert_eq!(OggPacket::crc(0, b"123456789"), 0x89a1897f);
    assert_eq!(OggPacket::crc(0xffff_ffff, b"a"), 0xe66c6494);
}

#[test]
fn crc_runs_on_from_an_earlier_value() {
    let data = pattern(1000, 7, 3, 251);
    let whole = OggPacket::crc(0, &data);
    for cut in [0usize, 1, 27, 500, 999, 1000] {
        let first = OggPacket::crc(0, &data[..cut]);
        assert_eq!(OggPacket::crc(first, &data[cut..]), whole);
    }
}

#[test]
fn checksum_needs_the_fixed_header() {
    assert_eq!(OggPacket::get_checksum(&[0u8; 26]), Err(OggError::TruncatedInput));
    assert_eq!(OggPacket::get_checksum(&[]), Err(OggError::TruncatedInput));
    assert_eq!(OggPacket::get_checksum(&[0u8; 27]), Ok(0));
    let mut short = [7u8; 26];
    assert_eq!(OggPacket::fill_checksum_field(&mut short), Err(OggError::TruncatedInput));
    assert_eq!(short, [7u8; 26]);
}

#[test]
fn checksum_ignores_the_checksum_field() {
    let bytes = small_page_bytes();
    assert_eq!(OggPacket::get_checksum(&bytes), Ok(0x388066a5));
    let mut other = bytes.clone();
    other[22] = 0xff;
    other[23] = 0x00;
    other[24] = 0x12;
    other[25] = 0x34;
    assert_eq!(OggPacket::get_checksum(&other), Ok(0x388066a5));
    let mut changed = bytes.clone();
    changed[30] ^= 1;
    assert_ne!(OggPacket::get_checksum(&changed), Ok(0x388066a5));
}

#[test]
fn fill_checksum_field_writes_little_endian() {
    let mut bytes = small_page_bytes();
    bytes[22] = 0;
    bytes[23] = 0;
    bytes[24] = 0;
    bytes[25] = 0;
    assert_eq!(OggPacket::fill_checksum_field(&mut bytes), Ok(()));
    assert_eq!(&bytes[22..26], &[0xa5, 0x66, 0x80, 0x38]);
    assert_eq!(bytes, small_page_bytes());
}

#[test]
fn packet_type_codes() {
    assert_eq!(OggPacketType::Continuation.code(), 0);
    assert_eq!(OggPacketType::BeginOfStream.code(), 2);
    assert_eq!(OggPacketType::EndOfStream.code(), 4);
    for code in 0..=255u8 {
        let expected = match code {
            0 => Some(OggPacketType::Continuation),
            2 => Some(OggPacketType::BeginOfStream),
            4 => Some(OggPacketType::EndOfStream),
            _ => None,
        };
        assert_eq!(OggPacketType::from_code(code), expected);
    }
}

#[test]
fn new_page_is_empty() {
    let packet = OggPacket::new(9, OggPacketType::Continuation, 3);
    assert_eq!(packet.version, 0);
    assert_eq!(packet.packet_type, OggPacketType::Continuation);
    assert_eq!(packet.granule_position, 0);
    assert_eq!(packet.stream_id, 9);
    assert_eq!(packet.packet_index, 3);
    assert_eq!(packet.checksum, 0);
    assert!(packet.segment_table.is_empty());
    assert!(packet.data.is_empty());
    let default = OggPacket::default();
    assert_eq!(default.packet_type, OggPacketType::BeginOfStream);
    assert_eq!(default.stream_id, 0);
    assert_eq!(default.packet_index, 0);
    assert!(default.segment_table.is_empty());
}

fn lacing(n: usize) -> Vec<u8> {
    let mut table = vec![255u8; n / 255];
    if n % 255 != 0 {
        table.push((n % 255) as u8);
    }
    table
}

#[test]
fn write_laces_the_payload() {
    for n in [0usize, 1, 2, 254, 255, 256, 509, 510, 511, 1000, 65024, 65025] {
        let data = pattern(n, 7, 3, 251);
        let mut packet = OggPacket::new(1, OggPacketType::BeginOfStream, 0);
        assert_eq!(packet.write(&data), n);
        assert_eq!(packet.segment_table, lacing(n), "payload of {} bytes", n);
        assert_eq!(packet.data, data);
        assert_eq!(packet.get_inner_data_size(), n);
    }
}

#[test]
fn write_laces_exact_tables() {
    let mut packet = OggPacket::new(1, OggPacketType::BeginOfStream, 0);
    assert_eq!(packet.write(&[0u8; 600]), 600);
    assert_eq!(packet.segment_table, vec![255, 255, 90]);
    let mut packet = OggPacket::new(1, OggPacketType::BeginOfStream, 0);
    assert_eq!(packet.write(&[0u8; 510]), 510);
    assert_eq!(packet.segment_table, vec![255, 255]);
    let mut packet = OggPacket::new(1, OggPacketType::BeginOfStream, 0);
    assert_eq!(packet.write(&[]), 0);
    assert!(packet.segment_table.is_empty());
}

#[test]
fn write_stops_at_a_full_page() {
    for n in [65026usize, 65279, 65280, 130050, 200000] {
        let data = pattern(n, 5, 1, 256);
        let mut packet = OggPacket::new(1, OggPacketType::BeginOfStream, 0);
        assert_eq!(packet.write(&data), 65025);
        assert_eq!(packet.segment_table, vec![255u8; 255]);
        assert_eq!(packet.data, &data[..65025]);
        assert_eq!(packet.write(&data[65025..]), 0);
        assert_eq!(packet.segment_table.len(), 255);
        assert_eq!(packet.data.len(), 65025);
    }
}

#[test]
fn write_goes_on_in_a_page_in_progress() {
    let mut packet = OggPacket::new(1, OggPacketType::BeginOfStream, 0);
    assert_eq!(packet.write(&[1u8; 100]), 100);
    assert_eq!(packet.write(&[2u8; 300]), 300);
    assert_eq!(packet.segment_table, vec![100, 255, 45]);
    assert_eq!(packet.get_inner_data_size(), 400);
    assert_eq!(packet.data.len(), 400);
    assert_eq!(packet.data[99], 1);
    assert_eq!(packet.data[100], 2);
    // 252 segments are free: 252 * 255 bytes fit.
    let big = pattern(70000, 3, 0, 255);
    assert_eq!(packet.write(&big), 252 * 255);
    assert_eq!(packet.segment_table.len(), 255);
    assert_eq!(&packet.data[400..], &big[..252 * 255]);
}

#[test]
fn clear_keeps_the_header() {
    let mut packet = small_page();
    packet.clear();
    assert!(packet.segment_table.is_empty());
    assert!(packet.data.is_empty());
    assert_eq!(packet.stream_id, 0x11223344);
    assert_eq!(packet.packet_index, 7);
    assert_eq!(packet.granule_position, 0x0102030405060708);
    assert_eq!(packet.packet_type, OggPacketType::BeginOfStream);
}

#[test]
fn segments_cut_the_payload() {
    let mut packet = OggPacket::new(1, OggPacketType::BeginOfStream, 0);
    packet.write(b"hello");
    packet.write(&[9u8; 256]);
    packet.write(b"xy");
    assert_eq!(packet.segment_table, vec![5, 255, 1, 2]);
    let segments = packet.get_segments();
    assert_eq!(segments.len(), 4);
    assert_eq!(segments[0], b"hello");
    assert_eq!(segments[1], vec![9u8; 255]);
    assert_eq!(segments[2], vec![9u8]);
    assert_eq!(segments[3], b"xy");
    let inner = packet.get_inner_data();
    assert_eq!(inner.len(), 263);
    assert_eq!(inner, packet.data);
    assert_eq!(inner, segments.concat());
    assert_eq!(packet.into_inner(), inner);
}

#[test]
fn into_bytes_lays_out_the_page() {
    assert_eq!(small_page().into_bytes(), small_page_bytes());
    let empty = OggPacket::new(7, OggPacketType::EndOfStream, 1);
    assert_eq!(
        empty.into_bytes(),
        vec![
            0x4f, 0x67, 0x67, 0x53, 0x00, 0x04, 0x00, 0x00, 0x00, 0x00, 0x00, 0x00, 0x00, 0x00,
            0x07, 0x00, 0x00, 0x00, 0x01, 0x00, 0x00, 0x00, 0x13, 0x6f, 0x17, 0x3d, 0x00,
        ]
    );
}

#[test]
fn into_bytes_computes_the_checksum_anew() {
    let mut packet = small_page();
    packet.checksum = 0xdead_beef;
    assert_eq!(packet.into_bytes(), small_page_bytes());
}

#[test]
fn from_bytes_takes_the_page() {
    let bytes = small_page_bytes();
    let mut length = 0usize;
    let packet = OggPacket::from_bytes(&bytes, &mut length).unwrap();
    assert_eq!(length, 31);
    assert_eq!(packet.version, 0);
    assert_eq!(packet.packet_type, OggPacketType::BeginOfStream);
    assert_eq!(packet.granule_position, 0x0102030405060708);
    assert_eq!(packet.stream_id, 0x11223344);
    assert_eq!(packet.packet_index, 7);
    assert_eq!(packet.checksum, 0x388066a5);
    assert_eq!(packet.segment_table, vec![3]);
    assert_eq!(packet.data, b"abc");
}

#[test]
fn from_bytes_leaves_what_follows() {
    let mut bytes = small_page_bytes();
    bytes.extend_from_slice(b"OggS and more");
    let mut length = 0usize;
    let packet = OggPacket::from_bytes(&bytes, &mut length).unwrap();
    assert_eq!(length, 31);
    assert_eq!(packet.data, b"abc");
}

#[test]
fn round_trip() {
    let types =
        [OggPacketType::Continuation, OggPacketType::BeginOfStream, OggPacketType::EndOfStream];
    for (k, n) in [0usize, 1, 255, 256, 1000, 65025].into_iter().enumerate() {
        let data = pattern(n, 11, k, 256);
        let mut packet = OggPacket::new(0xfedc_ba98 - k as u32, types[k % 3], u32::MAX - k as u32);
        packet.granule_position = u64::MAX - 3 * k as u64;
        assert_eq!(packet.write(&data), n);
        let bytes = packet.clone().into_bytes();
        assert_eq!(bytes.len(), 27 + packet.segment_table.len() + n);
        assert_eq!(OggPacket::get_length(&bytes), Ok(bytes.len()));
        let mut length = 0usize;
        let back = OggPacket::from_bytes(&bytes, &mut length).unwrap();
        assert_eq!(length, bytes.len());
        assert_eq!(back.version, 0);
        assert_eq!(back.packet_type, packet.packet_type);
        assert_eq!(back.granule_position, packet.granule_position);
        assert_eq!(back.stream_id, packet.stream_id);
        assert_eq!(back.packet_index, packet.packet_index);
        assert_eq!(back.segment_table, packet.segment_table);
        assert_eq!(back.data, data);
        assert_eq!(Ok(back.checksum), OggPacket::get_checksum(&bytes));
        assert_eq!(back.into_bytes(), bytes);
    }
}

#[test]
fn any_flipped_bit_is_refused() {
    let bytes = small_page_bytes();
    for i in 0..bytes.len() {
        for bit in 0..8 {
            let mut flipped = bytes.clone();
            flipped[i] ^= 1 << bit;
            let mut length = 0usize;
            let error = OggPacket::from_bytes(&flipped, &mut length).err();
            assert!(error.is_some(), "byte {} bit {}", i, bit);
            if (6..26).contains(&i) || i >= 28 {
                assert_eq!(error, Some(OggError::ChecksumMismatch), "byte {} bit {}", i, bit);
            }
            if i < 5 {
                assert_eq!(error, Some(OggError::MalformedHeader), "byte {} bit {}", i, bit);
            }
        }
    }
}

#[test]
fn a_flipped_payload_bit_is_a_checksum_mismatch() {
    let mut packet = OggPacket::new(3, OggPacketType::Continuation, 5);
    packet.write(&pattern(3000, 7, 3, 251));
    let bytes = packet.into_bytes();
    for i in [6usize, 13, 14, 21, 22, 25, 39, 40, 1000, bytes.len() - 1] {
        let mut flipped = bytes.clone();
        flipped[i] ^= 0x10;
        let mut length = 0usize;
        assert_eq!(
            OggPacket::from_bytes(&flipped, &mut length).err(),
            Some(OggError::ChecksumMismatch)
        );
        assert_eq!(length, bytes.len());
    }
}

#[test]
fn malformed_headers_are_refused() {
    let mut buffer = vec![0u8; 30];
    let mut length = 77usize;
    assert_eq!(OggPacket::from_bytes(&buffer, &mut length).err(), Some(OggError::MalformedHeader));
    assert_eq!(length, 77);
    assert_eq!(OggPacket::get_length(&buffer), Err(OggError::MalformedHeader));
    buffer[..4].copy_from_slice(b"OggS");
    buffer[3] = b's';
    assert_eq!(OggPacket::from_bytes(&buffer, &mut length).err(), Some(OggError::MalformedHeader));
    buffer[..4].copy_from_slice(b"RIFF");
    assert_eq!(OggPacket::from_bytes(&buffer, &mut length).err(), Some(OggError::MalformedHeader));
    assert_eq!(length, 77);

    let good = small_page_bytes();
    let mut bad_version = good.clone();
    bad_version[4] = 1;
    assert_eq!(
        OggPacket::from_bytes(&bad_version, &mut length).err(),
        Some(OggError::MalformedHeader)
    );
    assert_eq!(OggPacket::get_length(&bad_version), Err(OggError::MalformedHeader));
    for code in [1u8, 3, 5, 6, 8, 255] {
        let mut bad_type = good.clone();
        bad_type[5] = code;
        assert_eq!(
            OggPacket::from_bytes(&bad_type, &mut length).err(),
            Some(OggError::MalformedHeader)
        );
        assert_eq!(OggPacket::get_length(&bad_type), Err(OggError::MalformedHeader));
    }
    assert_eq!(length, 77);
}

#[test]
fn a_bad_magic_outranks_a_bad_checksum() {
    let mut bytes = small_page_bytes();
    bytes[0] = b'o';
    bytes[22] ^= 1;
    let mut length = 0usize;
    assert_eq!(OggPacket::from_bytes(&bytes, &mut length).err(), Some(OggError::MalformedHeader));
}

#[test]
fn truncated_input_is_told_apart() {
    let bytes = small_page_bytes();
    for cut in 0..bytes.len() {
        let mut length = 0usize;
        let result = OggPacket::from_bytes(&bytes[..cut], &mut length);
        assert_eq!(result.err(), Some(OggError::TruncatedInput), "{} bytes", cut);
        // The length is known as soon as the segment table is there.
        assert_eq!(length, if cut >= 28 { 31 } else { 0 }, "{} bytes", cut);
        let probed = OggPacket::get_length(&bytes[..cut]);
        assert_eq!(probed, if cut >= 28 { Ok(31) } else { Err(OggError::TruncatedInput) });
    }
    // Short and wrong at once: too short comes first.
    assert_eq!(OggPacket::get_length(&[0u8; 26]), Err(OggError::TruncatedInput));
    assert_eq!(OggPacket::get_length(&[0u8; 27]), Err(OggError::MalformedHeader));
}

#[test]
fn get_length_reads_only_header_and_table() {
    let mut packet = OggPacket::new(3, OggPacketType::Continuation, 5);
    packet.write(&pattern(1000, 7, 3, 251));
    let bytes = packet.into_bytes();
    assert_eq!(bytes.len(), 27 + 4 + 1000);
    assert_eq!(OggPacket::get_length(&bytes), Ok(1031));
    assert_eq!(OggPacket::get_length(&bytes[..31]), Ok(1031));
    assert_eq!(OggPacket::get_length(&bytes[..30]), Err(OggError::TruncatedInput));
    let mut corrupt = bytes.clone();
    corrupt[500] ^= 0xff;
    assert_eq!(OggPacket::get_length(&corrupt), Ok(1031));
}

fn three_pages() -> (Vec<u8>, Vec<usize>) {
    let mut bytes = Vec::new();
    let mut lengths = Vec::new();
    let types =
        [OggPacketType::BeginOfStream, OggPacketType::Continuation, OggPacketType::EndOfStream];
    for (index, n) in [10usize, 300, 0].into_iter().enumerate() {
        let mut packet = OggPacket::new(42, types[index], index as u32);
        packet.granule_position = 1000 * index as u64;
        packet.write(&pattern(n, 3, index, 200));
        let page = packet.into_bytes();
        lengths.push(page.len());
        bytes.extend_from_slice(&page);
    }
    (bytes, lengths)
}

#[test]
fn from_cursor_takes_every_page() {
    let (bytes, lengths) = three_pages();
    let mut cursor = ByteCursor::new(bytes.clone());
    let packets = OggPacket::from_cursor(&mut cursor);
    assert_eq!(packets.len(), 3);
    assert_eq!(cursor.position, bytes.len() as u64);
    assert_eq!(cursor.data, bytes);
    for (index, packet) in packets.iter().enumerate() {
        assert_eq!(packet.packet_index, index as u32);
        assert_eq!(packet.stream_id, 42);
        assert_eq!(packet.granule_position, 1000 * index as u64);
        assert_eq!(27 + packet.segment_table.len() + packet.data.len(), lengths[index]);
    }
    assert_eq!(packets[1].data, pattern(300, 3, 1, 200));
    assert_eq!(packets[2].packet_type, OggPacketType::EndOfStream);
}

#[test]
fn from_cursor_stops_where_no_page_can_be_taken() {
    let (bytes, lengths) = three_pages();
    // The third page is cut short.
    let mut cursor = ByteCursor::new(bytes[..bytes.len() - 1].to_vec());
    let packets = OggPacket::from_cursor(&mut cursor);
    assert_eq!(packets.len(), 2);
    assert_eq!(cursor.position, (lengths[0] + lengths[1]) as u64);
    // The second page is corrupt.
    let mut corrupt = bytes.clone();
    corrupt[lengths[0] + 40] ^= 1;
    let mut cursor = ByteCursor::new(corrupt);
    let packets = OggPacket::from_cursor(&mut cursor);
    assert_eq!(packets.len(), 1);
    assert_eq!(cursor.position, lengths[0] as u64);
    // Nothing at all.
    let mut cursor = ByteCursor::new(Vec::new());
    assert!(OggPacket::from_cursor(&mut cursor).is_empty());
    assert_eq!(cursor.position, 0);
    let mut cursor = ByteCursor::new(b"not a page, not a page, not a page".to_vec());
    cursor.position = 5;
    assert!(OggPacket::from_cursor(&mut cursor).is_empty());
    assert_eq!(cursor.position, 0);
}

#[test]
fn well_formed_pages() {
    assert!(OggPacket::new(1, OggPacketType::Continuation, 0).is_well_formed());
    assert!(OggPacket::default().is_well_formed());
    assert!(small_page().is_well_formed());
    let mut packet = small_page();
    packet.version = 1;
    assert!(!packet.is_well_formed());
    let mut packet = small_page();
    packet.data.push(0);
    assert!(!packet.is_well_formed());
    let mut packet = small_page();
    packet.segment_table.push(0);
    assert!(packet.is_well_formed());
    packet.segment_table.push(1);
    assert!(!packet.is_well_formed());
    let mut packet = OggPacket::new(1, OggPacketType::Continuation, 0);
    packet.segment_table = vec![0u8; 256];
    assert!(!packet.is_well_formed());
    packet.segment_table = vec![255u8; 255];
    packet.data = vec![0u8; 65025];
    assert!(packet.is_well_formed());
}

#[test]
fn pages_written_one_after_the_other_come_back() {
    let (bytes, _) = three_pages();
    let mut twice = bytes.clone();
    twice.extend_from_slice(&bytes);
    let mut cursor = ByteCursor::new(twice.clone());
    let packets = OggPacket::from_cursor(&mut cursor);
    assert_eq!(packets.len(), 6);
    assert_eq!(cursor.position, twice.len() as u64);
    let mut again = Vec::new();
    for packet in packets {
        again.extend_from_slice(&packet.into_bytes());
    }
    assert_eq!(again, twice);
}
