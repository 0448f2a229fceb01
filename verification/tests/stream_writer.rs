use ogg::{InnerDataSize, OggPacket, OggPacketType, OggStreamWriter, OnSeal};

fn pattern(len: usize, step: usize, offset: usize, modulus: usize) -> Vec<u8> {
    (0..len).map(|i| ((i * step + offset) % modulus) as u8).collect()
}

/// The pages that `bytes` holds, one after the other; nothing may be left.
fn pages(bytes: &[u8]) -> Vec<OggPacket> {
    let mut found = Vec::new();
    let mut rest = bytes;
    while !rest.is_empty() {
        let mut length = 0usize;
        found.push(OggPacket::from_bytes(rest, &mut length).unwrap());
        rest = &rest[length..];
    }
    found
}

#[test]
fn new_writer_starts_a_stream() {
    let writer = OggStreamWriter::new(vec![1, 2, 3], 7);
    assert_eq!(writer.writer, vec![1, 2, 3]);
    assert_eq!(writer.stream_id, 7);
    assert_eq!(writer.packet_index, 0);
    assert_eq!(writer.get_granule_position(), 0);
    assert_eq!(writer.get_bytes_written(), 0);
    assert!(!writer.finished);
    assert_eq!(writer.cur_packet.packet_type, OggPacketType::BeginOfStream);
    assert_eq!(writer.cur_packet.stream_id, 7);
    assert_eq!(writer.cur_packet.packet_index, 0);
    assert!(writer.cur_packet.data.is_empty());
}

#[test]
fn one_byte_over_a_full_page() {
    let data = pattern(65026, 7, 3, 251);
    let mut writer = OggStreamWriter::new(Vec::new(), 7);
    assert_eq!(writer.write(&data), 65026);
    assert_eq!(writer.get_bytes_written(), 65026);

    // Exactly one page is sealed, and it holds 65025 bytes.
    assert_eq!(writer.writer.len(), 27 + 255 + 65025);
    let sealed = pages(&writer.writer);
    assert_eq!(sealed.len(), 1);
    assert_eq!(sealed[0].packet_type, OggPacketType::BeginOfStream);
    assert_eq!(sealed[0].stream_id, 7);
    assert_eq!(sealed[0].packet_index, 0);
    assert_eq!(sealed[0].granule_position, 65025);
    assert_eq!(sealed[0].segment_table, vec![255u8; 255]);
    assert_eq!(sealed[0].data, &data[..65025]);
    assert_eq!(sealed[0].checksum, 0x5ddc79c3);

    // The second page is open and holds one byte.
    assert!(!writer.finished);
    assert_eq!(writer.packet_index, 1);
    assert_eq!(writer.get_granule_position(), 65025);
    assert_eq!(writer.cur_packet.packet_type, OggPacketType::Continuation);
    assert_eq!(writer.cur_packet.packet_index, 1);
    assert_eq!(writer.cur_packet.stream_id, 7);
    assert_eq!(writer.cur_packet.segment_table, vec![1]);
    assert_eq!(writer.cur_packet.data, &data[65025..]);

    writer.close();
    assert!(writer.finished);
    assert_eq!(writer.packet_index, 2);
    let sealed = pages(&writer.writer);
    assert_eq!(sealed.len(), 2);
    assert_eq!(sealed[1].packet_type, OggPacketType::EndOfStream);
    assert_eq!(sealed[1].packet_index, 1);
    assert_eq!(sealed[1].stream_id, 7);
    assert_eq!(sealed[1].granule_position, 65025);
    assert_eq!(sealed[1].data, &data[65025..]);
    assert_eq!(sealed[1].checksum, 0x887fc73e);
    assert_eq!(writer.writer.len(), 65307 + 29);
}

#[test]
fn two_full_pages_in_one_call_or_in_many() {
    let data = pattern(130050, 13, 5, 253);

    let mut at_once = OggStreamWriter::new(Vec::new(), 9);
    assert_eq!(at_once.write(&data), 130050);
    // The second page is full but still open.
    assert_eq!(pages(&at_once.writer).len(), 1);
    assert_eq!(at_once.cur_packet.segment_table.len(), 255);
    at_once.close();

    let mut piecewise = OggStreamWriter::new(Vec::new(), 9);
    for piece in data.chunks(255) {
        assert_eq!(piecewise.write(piece), 255);
    }
    assert_eq!(pages(&piecewise.writer).len(), 1);
    piecewise.close();

    let mut by_pages = OggStreamWriter::new(Vec::new(), 9);
    for piece in data.chunks(65025) {
        assert_eq!(by_pages.write(piece), 65025);
    }
    by_pages.close();

    assert_eq!(at_once.writer, piecewise.writer);
    assert_eq!(at_once.writer, by_pages.writer);
    assert_eq!(at_once.get_bytes_written(), 130050);
    assert_eq!(piecewise.get_bytes_written(), 130050);

    let sealed = pages(&at_once.writer);
    assert_eq!(sealed.len(), 2);
    assert_eq!(sealed[0].packet_index, 0);
    assert_eq!(sealed[0].packet_type, OggPacketType::BeginOfStream);
    assert_eq!(sealed[0].data, &data[..65025]);
    assert_eq!(sealed[0].checksum, 0x8f03c1b6);
    assert_eq!(sealed[1].packet_index, 1);
    assert_eq!(sealed[1].packet_type, OggPacketType::EndOfStream);
    assert_eq!(sealed[1].data, &data[65025..]);
    assert_eq!(sealed[1].checksum, 0x6a85f6b4);
    assert_eq!(sealed[1].granule_position, 65025);
}

#[test]
fn pieces_of_any_size_keep_the_payload() {
    let data = pattern(200_000, 17, 1, 256);
    for size in [1000usize, 4096, 65025, 65026, 199_999] {
        let mut writer = OggStreamWriter::new(Vec::new(), 3);
        for piece in data.chunks(size) {
            assert_eq!(writer.write(piece), piece.len());
        }
        writer.close();
        let sealed = pages(&writer.writer);
        let mut payload = Vec::new();
        for (index, page) in sealed.iter().enumerate() {
            assert_eq!(page.packet_index, index as u32);
            assert_eq!(page.stream_id, 3);
            let expected = if index + 1 == sealed.len() {
                OggPacketType::EndOfStream
            } else if index == 0 {
                OggPacketType::BeginOfStream
            } else {
                OggPacketType::Continuation
            };
            assert_eq!(page.packet_type, expected);
            payload.extend_from_slice(&page.data);
        }
        assert_eq!(payload, data);
        assert_eq!(writer.get_bytes_written(), 200_000);
    }
}

#[test]
fn a_small_write_seals_nothing() {
    let mut writer = OggStreamWriter::new(Vec::new(), 1);
    assert_eq!(writer.write(b""), 0);
    assert_eq!(writer.write(b"abc"), 3);
    assert_eq!(writer.write(b"defg"), 4);
    assert!(writer.writer.is_empty());
    assert_eq!(writer.packet_index, 0);
    assert_eq!(writer.cur_packet.segment_table, vec![3, 4]);
    assert_eq!(writer.cur_packet.data, b"abcdefg");
    assert_eq!(writer.get_bytes_written(), 7);
}

#[test]
fn seal_packet_writes_the_page_and_starts_the_next() {
    let mut writer = OggStreamWriter::new(vec![0xaa], 0x11223344);
    writer.packet_index = 7;
    writer.cur_packet.packet_index = 7;
    writer.write(b"abc");
    writer.seal_packet(0x0102030405060708, false);
    let mut expected = vec![0xaa];
    expected.extend_from_slice(&[
        0x4f, 0x67, 0x67, 0x53, 0x00, 0x02, 0x08, 0x07, 0x06, 0x05, 0x04, 0x03, 0x02, 0x01, 0x44,
        0x33, 0x22, 0x11, 0x07, 0x00, 0x00, 0x00, 0xa5, 0x66, 0x80, 0x38, 0x01, 0x03, 0x61, 0x62,
        0x63,
    ]);
    assert_eq!(writer.writer, expected);
    assert_eq!(writer.packet_index, 8);
    assert_eq!(writer.get_granule_position(), 0x0102030405060708);
    assert_eq!(writer.cur_packet.packet_type, OggPacketType::Continuation);
    assert_eq!(writer.cur_packet.packet_index, 8);
    assert_eq!(writer.cur_packet.stream_id, 0x11223344);
    assert_eq!(writer.cur_packet.granule_position, 0);
    assert!(writer.cur_packet.data.is_empty());
    assert!(!writer.finished);
}

#[test]
fn sealing_the_last_page() {
    let mut writer = OggStreamWriter::new(Vec::new(), 7);
    writer.packet_index = 1;
    writer.cur_packet = OggPacket::new(7, OggPacketType::Continuation, 1);
    writer.seal_packet(0, true);
    assert_eq!(
        writer.writer,
        vec![
            0x4f, 0x67, 0x67, 0x53, 0x00, 0x04, 0x00, 0x00, 0x00, 0x00, 0x00, 0x00, 0x00, 0x00,
            0x07, 0x00, 0x00, 0x00, 0x01, 0x00, 0x00, 0x00, 0x13, 0x6f, 0x17, 0x3d, 0x00,
        ]
    );
    assert!(writer.finished);
    assert_eq!(writer.packet_index, 2);
    // No further page of the stream is started.
    assert_eq!(writer.cur_packet.packet_type, OggPacketType::BeginOfStream);
    assert_eq!(writer.cur_packet.stream_id, 0);
    assert_eq!(writer.cur_packet.packet_index, 0);
    assert!(writer.cur_packet.data.is_empty());
}

#[test]
fn close_seals_once() {
    let mut writer = OggStreamWriter::new(Vec::new(), 5);
    writer.write(b"payload");
    writer.set_granule_position(99);
    writer.close();
    let after_first = writer.writer.clone();
    let sealed = pages(&after_first);
    assert_eq!(sealed.len(), 1);
    assert_eq!(sealed[0].packet_type, OggPacketType::EndOfStream);
    assert_eq!(sealed[0].granule_position, 99);
    assert_eq!(sealed[0].data, b"payload");
    writer.close();
    assert_eq!(writer.writer, after_first);
    assert_eq!(writer.packet_index, 1);
}

#[test]
fn marking_the_end_does_not_seal() {
    let mut writer = OggStreamWriter::new(Vec::new(), 5);
    writer.write(b"xyz");
    writer.mark_cur_packet_as_end_of_stream();
    assert!(writer.writer.is_empty());
    assert!(!writer.finished);
    assert_eq!(writer.cur_packet.packet_type, OggPacketType::EndOfStream);
    assert_eq!(writer.cur_packet.data, b"xyz");
    writer.seal_packet(4, false);
    let sealed = pages(&writer.writer);
    assert_eq!(sealed[0].packet_type, OggPacketType::EndOfStream);
    assert_eq!(sealed[0].granule_position, 4);
}

#[test]
fn reset_starts_a_new_stream_on_the_same_sink() {
    let mut writer = OggStreamWriter::new(Vec::new(), 5);
    writer.write(&pattern(70000, 3, 1, 250));
    writer.close();
    let sink = writer.writer.clone();
    writer.write(b"lost");
    writer.reset();
    assert_eq!(writer.writer, sink);
    assert_eq!(writer.stream_id, 5);
    assert_eq!(writer.packet_index, 0);
    assert_eq!(writer.get_granule_position(), 0);
    assert_eq!(writer.get_bytes_written(), 0);
    assert!(!writer.finished);
    assert_eq!(writer.cur_packet.packet_type, OggPacketType::BeginOfStream);
    assert_eq!(writer.cur_packet.stream_id, 5);
    assert!(writer.cur_packet.data.is_empty());
    writer.write(b"again");
    writer.close();
    let sealed = pages(&writer.writer);
    assert_eq!(sealed.len(), 3);
    assert_eq!(sealed[2].packet_index, 0);
    assert_eq!(sealed[2].data, b"again");
}

struct Doubling {
    sizes: Vec<usize>,
}

impl OnSeal for Doubling {
    fn spec_on_seal(&self, _inner_data_size: usize) -> (u64, Self) {
        unreachable!("ghost code is never run")
    }

    fn on_seal(&mut self, inner_data_size: usize) -> u64 {
        self.sizes.push(inner_data_size);
        2 * inner_data_size as u64 + self.sizes.len() as u64
    }
}

#[test]
fn the_callback_decides_the_granule_position() {
    let mut writer = OggStreamWriter::with_on_seal(Vec::new(), 1, Doubling { sizes: Vec::new() });
    writer.write(&[1u8; 100]);
    assert!(writer.on_seal.sizes.is_empty());
    writer.write(&pattern(65025 * 2, 3, 1, 250));
    // The first page held 100 bytes and took 254 full segments more.
    assert_eq!(writer.on_seal.sizes, vec![100 + 254 * 255, 65025]);
    let sealed = pages(&writer.writer);
    assert_eq!(sealed.len(), 2);
    assert_eq!(sealed[0].granule_position, 2 * (100 + 254 * 255) + 1);
    assert_eq!(sealed[1].granule_position, 2 * 65025 + 2);
    assert_eq!(writer.get_granule_position(), 2 * 65025 + 2);
    writer.set_on_seal_callback(Doubling { sizes: vec![0, 0, 0] });
    writer.write(&pattern(65025, 3, 1, 250));
    assert_eq!(writer.on_seal.sizes.len(), 4);
    assert_eq!(writer.get_granule_position(), 2 * 65025 + 4);
}

#[test]
fn the_default_callback_counts_the_bytes_of_the_page() {
    let mut callback = InnerDataSize;
    assert_eq!(callback.on_seal(0), 0);
    assert_eq!(callback.on_seal(65025), 65025);
    let mut writer = OggStreamWriter::new(Vec::new(), 1);
    writer.write(&[0u8; 10]);
    writer.write(&[0u8; 70000]);
    let sealed = pages(&writer.writer);
    assert_eq!(sealed.len(), 1);
    assert_eq!(sealed[0].granule_position, 10 + 254 * 255);
}

#[test]
fn the_granule_position_can_be_set() {
    let mut writer = OggStreamWriter::new(Vec::new(), 1);
    writer.set_granule_position(12345);
    assert_eq!(writer.get_granule_position(), 12345);
    assert!(writer.writer.is_empty());
}

#[test]
fn can_seal_guards_the_index() {
    let mut writer = OggStreamWriter::new(Vec::new(), 1);
    assert!(writer.can_seal());
    writer.packet_index = u32::MAX - 1;
    assert!(writer.can_seal());
    writer.packet_index = u32::MAX;
    assert!(!writer.can_seal());
    writer.packet_index = 0;
    writer.cur_packet.segment_table = vec![0u8; 256];
    assert!(!writer.can_seal());
    writer.cur_packet.segment_table = vec![0u8; 255];
    assert!(writer.can_seal());
}

#[test]
fn can_write_guards_the_counters() {
    let mut writer = OggStreamWriter::new(Vec::new(), 1);
    assert!(writer.can_write(0));
    assert!(writer.can_write(1 << 30));
    // With the index at its end a write may fill the page but seal nothing.
    writer.packet_index = u32::MAX;
    assert!(writer.can_write(65025));
    assert!(!writer.can_write(65026));
    writer.packet_index = u32::MAX - 2;
    assert!(writer.can_write(65025 * 3));
    assert!(!writer.can_write(65025 * 3 + 1));
    // A page in progress of three segments has 252 free.
    writer.packet_index = u32::MAX;
    writer.write(&[0u8; 600]);
    assert_eq!(writer.cur_packet.segment_table.len(), 3);
    assert!(writer.can_write(252 * 255));
    assert!(!writer.can_write(252 * 255 + 1));

    let mut writer = OggStreamWriter::new(Vec::new(), 1);
    writer.bytes_written = u64::MAX - 10;
    assert!(writer.can_write(10));
    assert!(!writer.can_write(11));

    let mut writer = OggStreamWriter::new(Vec::new(), 1);
    writer.cur_packet.version = 1;
    assert!(!writer.can_write(0));
    writer.cur_packet.version = 0;
    writer.cur_packet.data = vec![1];
    assert!(!writer.can_write(0));
    writer.cur_packet.segment_table = vec![1];
    assert!(writer.can_write(0));
}

#[test]
fn the_callback_is_asked_for_full_pages_only() {
    let mut writer = OggStreamWriter::with_on_seal(Vec::new(), 1, Doubling { sizes: Vec::new() });
    for _ in 0..1000 {
        writer.write(&[7u8; 255]);
    }
    assert_eq!(writer.on_seal.sizes, vec![65025, 65025, 65025]);
    assert_eq!(writer.packet_index, 3);
    assert_eq!(writer.get_bytes_written(), 255_000);
    assert_eq!(writer.cur_packet.data.len(), 255_000 - 3 * 65025);
}

#[test]
fn pieces_of_full_segments_are_one_write() {
    let data = pattern(255 * 700, 19, 2, 256);
    for (head, cut) in [(0usize, 255usize), (100, 255 * 3), (100, 255 * 254), (600, 255 * 400)] {
        let mut at_once = OggStreamWriter::new(Vec::new(), 4);
        at_once.write(&data[..head]);
        at_once.write(&data[head..]);
        let mut in_pieces = OggStreamWriter::new(Vec::new(), 4);
        in_pieces.write(&data[..head]);
        in_pieces.write(&data[head..head + cut]);
        in_pieces.write(&data[head + cut..]);
        assert_eq!(at_once.writer, in_pieces.writer);
        assert_eq!(at_once.packet_index, in_pieces.packet_index);
        assert_eq!(at_once.get_granule_position(), in_pieces.get_granule_position());
        assert_eq!(at_once.get_bytes_written(), in_pieces.get_bytes_written());
        assert_eq!(at_once.cur_packet.segment_table, in_pieces.cur_packet.segment_table);
        assert_eq!(at_once.cur_packet.data, in_pieces.cur_packet.data);
    }
    // A first piece that ends within a segment laces the page otherwise.
    let mut at_once = OggStreamWriter::new(Vec::new(), 4);
    at_once.write(&data[..600]);
    let mut in_pieces = OggStreamWriter::new(Vec::new(), 4);
    in_pieces.write(&data[..300]);
    in_pieces.write(&data[300..600]);
    assert_eq!(at_once.cur_packet.segment_table, vec![255, 255, 90]);
    assert_eq!(in_pieces.cur_packet.segment_table, vec![255, 45, 255, 45]);
    assert_eq!(at_once.cur_packet.data, in_pieces.cur_packet.data);
}

#[test]
fn close_of_a_finished_writer_changes_nothing() {
    let mut writer = OggStreamWriter::new(Vec::new(), 5);
    writer.packet_index = u32::MAX - 1;
    writer.cur_packet.packet_index = u32::MAX - 1;
    writer.close();
    assert!(writer.finished);
    assert_eq!(writer.packet_index, u32::MAX);
    assert!(!writer.can_seal());
    let sink = writer.writer.clone();
    writer.close();
    assert_eq!(writer.writer, sink);
    assert_eq!(writer.packet_index, u32::MAX);
}
