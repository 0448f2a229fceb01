use crate::checksum::{spec_checksum, spec_fill_checksum_field, HEADER_SIZE};
use crate::error::OggError;
use crate::packet::{
    lemma_table_sum_bounds, spec_table_sum, OggPacket, OggPacketType, OggPacketView,
};
use vstd::bytes::{
    spec_u32_from_le_bytes, spec_u32_to_le_bytes, spec_u64_from_le_bytes, spec_u64_to_le_bytes,
    u32_from_le_bytes, u32_to_le_bytes, u64_from_le_bytes, u64_to_le_bytes,
};
use vstd::prelude::*;
use vstd::slice::{slice_subrange, slice_to_vec};

verus! {

/// The four bytes that every page starts with: `OggS`.
pub open spec fn spec_magic() -> Seq<u8> {
    seq![0x4fu8, 0x67u8, 0x67u8, 0x53u8]
}

/// The bytes of a page before its checksum is filled in: magic, version,
/// type, granule position, stream id, packet index, a zeroed checksum field,
/// the number of segments, the segment table and the payload.
pub open spec fn spec_unsigned_bytes(p: OggPacketView) -> Seq<u8> {
    spec_magic() + seq![p.version] + seq![p.packet_type.spec_code()] + spec_u64_to_le_bytes(
        p.granule_position,
    ) + spec_u32_to_le_bytes(p.stream_id) + spec_u32_to_le_bytes(p.packet_index) + seq![
        0u8,
        0u8,
        0u8,
        0u8,
    ] + seq![p.segment_table.len() as u8] + p.segment_table + p.data
}

/// The bytes of a page on the wire.
pub open spec fn spec_into_bytes(p: OggPacketView) -> Seq<u8> {
    spec_fill_checksum_field(spec_unsigned_bytes(p))
}

/// The length of the page that `bytes` starts with, read from the fixed
/// header and the segment table alone.
pub open spec fn spec_get_length(bytes: Seq<u8>) -> Result<nat, OggError> {
    if bytes.len() < 27 {
        Err(OggError::TruncatedInput)
    } else if bytes.subrange(0, 4) != spec_magic() {
        Err(OggError::MalformedHeader)
    } else if bytes[4] != 0 {
        Err(OggError::MalformedHeader)
    } else if OggPacketType::spec_from_code(bytes[5]) is None {
        Err(OggError::MalformedHeader)
    } else if bytes.len() < 27 + bytes[26] {
        Err(OggError::TruncatedInput)
    } else {
        Ok((27 + bytes[26] + spec_table_sum(bytes.subrange(27, 27 + bytes[26]))) as nat)
    }
}

/// The fields of the page of `length` bytes that `bytes` starts with.
pub open spec fn spec_fields(bytes: Seq<u8>, length: nat) -> OggPacketView {
    OggPacketView {
        version: 0,
        packet_type: OggPacketType::spec_from_code(bytes[5]).unwrap(),
        granule_position: spec_u64_from_le_bytes(bytes.subrange(6, 14)),
        stream_id: spec_u32_from_le_bytes(bytes.subrange(14, 18)),
        packet_index: spec_u32_from_le_bytes(bytes.subrange(18, 22)),
        checksum: spec_u32_from_le_bytes(bytes.subrange(22, 26)),
        segment_table: bytes.subrange(27, 27 + bytes[26]),
        data: bytes.subrange(27 + bytes[26], length as int),
    }
}

/// The page that `bytes` starts with and its length, or why there is none:
/// the header is checked as for the length, then the payload must be all
/// there, then the stored checksum must be the computed one.
pub open spec fn spec_from_bytes(bytes: Seq<u8>) -> Result<(OggPacketView, nat), OggError> {
    match spec_get_length(bytes) {
        Err(e) => Err(e),
        Ok(length) => {
            if bytes.len() < length {
                Err(OggError::TruncatedInput)
            } else if spec_fields(bytes, length).checksum != spec_checksum(
                bytes.subrange(0, length as int),
            ) {
                Err(OggError::ChecksumMismatch)
            } else {
                Ok((spec_fields(bytes, length), length))
            }
        },
    }
}

/// The pages that `bytes` holds one after the other, up to the first place
/// where no page can be taken, and the number of bytes they fill.
pub open spec fn spec_from_cursor(bytes: Seq<u8>) -> (Seq<OggPacketView>, nat)
    decreases bytes.len(),
{
    match spec_from_bytes(bytes) {
        Ok((p, length)) => {
            if 0 < length <= bytes.len() {
                let rest = spec_from_cursor(bytes.skip(length as int));
                (seq![p] + rest.0, length + rest.1)
            } else {
                (Seq::empty(), 0)
            }
        },
        Err(_) => (Seq::empty(), 0),
    }
}

/// The views of a vector of pages.
pub open spec fn spec_views(packets: Seq<OggPacket>) -> Seq<OggPacketView> {
    Seq::new(packets.len(), |i: int| packets[i]@)
}

/// A buffer of bytes with a position in it.
pub struct ByteCursor {
    /// The bytes.
    pub data: Vec<u8>,
    /// How many bytes, from the start, have been consumed.
    pub position: u64,
}

impl ByteCursor {
    /// A cursor at the start of `data`.
    pub fn new(data: Vec<u8>) -> (cursor: Self)
        ensures
            cursor.data@ == data@,
            cursor.position == 0,
    {
        ByteCursor { data, position: 0 }
    }
}

impl OggPacket {
    /// The page as bytes on the wire, with the checksum computed over them.
    pub fn into_bytes(self) -> (bytes: Vec<u8>)
        requires
            self.segment_table@.len() <= 255,
        ensures
            bytes@ == spec_into_bytes(self@),
    {
        let mut ret: Vec<u8> = Vec::new();
        ret.push(0x4f);
        ret.push(0x67);
        ret.push(0x67);
        ret.push(0x53);
        ret.push(self.version);
        ret.push(self.packet_type.code());
        let mut granule_position = u64_to_le_bytes(self.granule_position);
        ret.append(&mut granule_position);
        let mut stream_id = u32_to_le_bytes(self.stream_id);
        ret.append(&mut stream_id);
        let mut packet_index = u32_to_le_bytes(self.packet_index);
        ret.append(&mut packet_index);
        ret.push(0);
        ret.push(0);
        ret.push(0);
        ret.push(0);
        ret.push(self.segment_table.len() as u8);
        let mut segment_table = self.segment_table;
        ret.append(&mut segment_table);
        let mut data = self.data;
        ret.append(&mut data);
        proof {
            assert(ret@ =~= spec_unsigned_bytes(self@));
            vstd::bytes::lemma_auto_spec_u64_to_from_le_bytes();
        }
        let _ = Self::fill_checksum_field(ret.as_mut_slice());
        ret
    }

    /// The length in bytes of the page that `ogg_packet` starts with. Only
    /// the fixed header and the segment table are read: the payload need not
    /// be there.
    pub fn get_length(ogg_packet: &[u8]) -> (length: Result<usize, OggError>)
        ensures
            match length {
                Ok(n) => spec_get_length(ogg_packet@) == Ok::<nat, OggError>(n as nat),
                Err(e) => spec_get_length(ogg_packet@) == Err::<nat, OggError>(e),
            },
    {
        if ogg_packet.len() < HEADER_SIZE {
            return Err(OggError::TruncatedInput);
        }
        if ogg_packet[0] != 0x4f || ogg_packet[1] != 0x67 || ogg_packet[2] != 0x67 || ogg_packet[3]
            != 0x53 {
            proof {
                let magic = ogg_packet@.subrange(0, 4);
                assert(magic[0] == ogg_packet@[0] && magic[1] == ogg_packet@[1] && magic[2]
                    == ogg_packet@[2] && magic[3] == ogg_packet@[3]);
            }
            return Err(OggError::MalformedHeader);
        }
        assert(ogg_packet@.subrange(0, 4) =~= spec_magic());
        if ogg_packet[4] != 0 {
            return Err(OggError::MalformedHeader);
        }
        if OggPacketType::from_code(ogg_packet[5]).is_none() {
            return Err(OggError::MalformedHeader);
        }
        let num_segments: usize = ogg_packet[26] as usize;
        let data_start: usize = HEADER_SIZE + num_segments;
        if data_start > ogg_packet.len() {
            return Err(OggError::TruncatedInput);
        }
        let segment_table = slice_subrange(ogg_packet, HEADER_SIZE, data_start);
        let mut data_length: usize = 0;
        let mut i: usize = 0;
        while i < num_segments
            invariant
                i <= num_segments <= 255,
                segment_table@.len() == num_segments,
                data_length == spec_table_sum(segment_table@.take(i as int)),
            decreases num_segments - i,
        {
            proof {
                lemma_table_sum_bounds(segment_table@.take(i + 1), 0);
                assert(segment_table@.take(i + 1).drop_last() =~= segment_table@.take(i as int));
            }
            data_length = data_length + segment_table[i] as usize;
            i = i + 1;
        }
        proof {
            assert(segment_table@.take(i as int) =~= segment_table@);
            lemma_table_sum_bounds(segment_table@, 0);
        }
        Ok(data_start + data_length)
    }

    /// Takes the page that `ogg_packet` starts with. The checks come in this
    /// order: the fixed header is there; the magic, the version and the type
    /// are right; the segment table is there; the payload is there; the
    /// stored checksum is the computed one. Once the segment table has been
    /// read, the length of the page is written to `packet_length`, whether
    /// or not the later checks pass.
    pub fn from_bytes(ogg_packet: &[u8], packet_length: &mut usize) -> (packet: Result<
        Self,
        OggError,
    >)
        ensures
            match spec_get_length(ogg_packet@) {
                Ok(n) => *final(packet_length) == n,
                Err(_) => *final(packet_length) == *old(packet_length),
            },
            match packet {
                Ok(p) => spec_from_bytes(ogg_packet@) == Ok::<(OggPacketView, nat), OggError>(
                    (p@, *final(packet_length) as nat),
                ),
                Err(e) => spec_from_bytes(ogg_packet@) == Err::<(OggPacketView, nat), OggError>(e),
            },
    {
        let length = match Self::get_length(ogg_packet) {
            Ok(length) => length,
            Err(e) => {
                return Err(e);
            },
        };
        *packet_length = length;
        if ogg_packet.len() < length {
            return Err(OggError::TruncatedInput);
        }
        let data_start: usize = HEADER_SIZE + ogg_packet[26] as usize;
        proof {
            lemma_table_sum_bounds(ogg_packet@.subrange(27, data_start as int), 0);
        }
        let packet_type = match OggPacketType::from_code(ogg_packet[5]) {
            Some(t) => t,
            None => {
                return Err(OggError::MalformedHeader);
            },
        };
        let ret = OggPacket {
            version: 0,
            packet_type,
            granule_position: u64_from_le_bytes(slice_subrange(ogg_packet, 6, 14)),
            stream_id: u32_from_le_bytes(slice_subrange(ogg_packet, 14, 18)),
            packet_index: u32_from_le_bytes(slice_subrange(ogg_packet, 18, 22)),
            checksum: u32_from_le_bytes(slice_subrange(ogg_packet, 22, 26)),
            segment_table: slice_to_vec(slice_subrange(ogg_packet, HEADER_SIZE, data_start)),
            data: slice_to_vec(slice_subrange(ogg_packet, data_start, length)),
        };
        match Self::get_checksum(slice_subrange(ogg_packet, 0, length)) {
            Err(e) => Err(e),
            Ok(checksum) => {
                if ret.checksum != checksum {
                    Err(OggError::ChecksumMismatch)
                } else {
                    Ok(ret)
                }
            },
        }
    }

    /// Takes the pages that the cursor's bytes hold one after the other,
    /// from the first byte on, and stops without an error where no page can
    /// be taken. The cursor is left just behind the last page taken.
    pub fn from_cursor(cursor: &mut ByteCursor) -> (packets: Vec<OggPacket>)
        ensures
            final(cursor).data@ == old(cursor).data@,
            spec_views(packets@) == spec_from_cursor(old(cursor).data@).0,
            final(cursor).position == spec_from_cursor(old(cursor).data@).1,
    {
        let mut bytes_read: usize = 0;
        let mut ret: Vec<OggPacket> = Vec::new();
        let mut done: bool = false;
        proof {
            assert(cursor.data@.skip(0) =~= cursor.data@);
            assert(spec_views(ret@) + spec_from_cursor(cursor.data@).0 =~= spec_from_cursor(
                cursor.data@,
            ).0);
        }
        while !done
            invariant
                cursor.data@ == old(cursor).data@,
                bytes_read <= cursor.data@.len(),
                spec_from_cursor(cursor.data@).0 == spec_views(ret@) + spec_from_cursor(
                    cursor.data@.skip(bytes_read as int),
                ).0,
                spec_from_cursor(cursor.data@).1 == bytes_read + spec_from_cursor(
                    cursor.data@.skip(bytes_read as int),
                ).1,
                done ==> spec_from_cursor(cursor.data@.skip(bytes_read as int)) == (
                    Seq::<OggPacketView>::empty(),
                    0nat,
                ),
            decreases cursor.data@.len() - bytes_read + (if done { 0int } else { 1int }),
        {
            let mut packet_length: usize = 0;
            let rest = slice_subrange(cursor.data.as_slice(), bytes_read, cursor.data.len());
            proof {
                assert(rest@ =~= cursor.data@.skip(bytes_read as int));
            }
            match Self::from_bytes(rest, &mut packet_length) {
                Ok(packet) => {
                    proof {
                        assert(rest@.skip(packet_length as int) =~= cursor.data@.skip(
                            bytes_read + packet_length,
                        ));
                        assert(spec_views(ret@.push(packet)) =~= spec_views(ret@) + seq![packet@]);
                    }
                    bytes_read = bytes_read + packet_length;
                    ret.push(packet);
                },
                Err(_) => {
                    done = true;
                },
            }
        }
        cursor.position = bytes_read as u64;
        ret
    }
}

} // verus!
