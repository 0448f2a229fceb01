use crate::checksum::{spec_checksum, spec_with_checksum_field};
use crate::codec::{
    spec_fields, spec_from_bytes, spec_from_cursor, spec_get_length, spec_into_bytes, spec_magic,
    spec_unsigned_bytes,
};
use crate::error::OggError;
use crate::packet::{OggPacketType, OggPacketView};
use vstd::bytes::{
    lemma_auto_spec_u32_to_from_le_bytes, lemma_auto_spec_u64_to_from_le_bytes,
    spec_u32_to_le_bytes, spec_u64_to_le_bytes,
};
use vstd::prelude::*;

verus! {

/// Where each field lies in the bytes of a page before the checksum is
/// filled in.
pub proof fn lemma_unsigned_layout(p: OggPacketView)
    ensures
        spec_unsigned_bytes(p).len() == 27 + p.segment_table.len() + p.data.len(),
        spec_unsigned_bytes(p).subrange(0, 4) == spec_magic(),
        spec_unsigned_bytes(p)[4] == p.version,
        spec_unsigned_bytes(p)[5] == p.packet_type.spec_code(),
        spec_unsigned_bytes(p).subrange(6, 14) == spec_u64_to_le_bytes(p.granule_position),
        spec_unsigned_bytes(p).subrange(14, 18) == spec_u32_to_le_bytes(p.stream_id),
        spec_unsigned_bytes(p).subrange(18, 22) == spec_u32_to_le_bytes(p.packet_index),
        spec_unsigned_bytes(p).subrange(22, 26) == seq![0u8, 0u8, 0u8, 0u8],
        spec_unsigned_bytes(p)[26] == p.segment_table.len() as u8,
        spec_unsigned_bytes(p).subrange(27, 27 + p.segment_table.len() as int)
            == p.segment_table,
        spec_unsigned_bytes(p).subrange(
            27 + p.segment_table.len() as int,
            27 + p.segment_table.len() as int + p.data.len() as int,
        ) == p.data,
{
    lemma_auto_spec_u32_to_from_le_bytes();
    lemma_auto_spec_u64_to_from_le_bytes();
    let u = spec_unsigned_bytes(p);
    let n = p.segment_table.len() as int;
    assert(u.subrange(0, 4) =~= spec_magic());
    assert(u.subrange(6, 14) =~= spec_u64_to_le_bytes(p.granule_position));
    assert(u.subrange(14, 18) =~= spec_u32_to_le_bytes(p.stream_id));
    assert(u.subrange(18, 22) =~= spec_u32_to_le_bytes(p.packet_index));
    assert(u.subrange(22, 26) =~= seq![0u8, 0u8, 0u8, 0u8]);
    assert(u.subrange(27, 27 + n) =~= p.segment_table);
    assert(u.subrange(27 + n, 27 + n + p.data.len()) =~= p.data);
}

/// Serializing a page and taking it back gives the page again, field for
/// field and byte for byte, with the checksum field holding the checksum
/// that serializing computed; all the bytes are consumed. A page that
/// already held that checksum comes back as it was.
pub proof fn lemma_round_trip(p: OggPacketView)
    requires
        p.wf(),
    ensures
        spec_into_bytes(p).len() == 27 + p.segment_table.len() + p.data.len(),
        spec_from_bytes(spec_into_bytes(p)) == Ok::<(OggPacketView, nat), OggError>(
            (
                OggPacketView { checksum: spec_checksum(spec_unsigned_bytes(p)), ..p },
                spec_into_bytes(p).len(),
            ),
        ),
        p.checksum == spec_checksum(spec_unsigned_bytes(p)) ==> spec_from_bytes(
            spec_into_bytes(p),
        ) == Ok::<(OggPacketView, nat), OggError>((p, spec_into_bytes(p).len())),
{
    lemma_auto_spec_u32_to_from_le_bytes();
    lemma_auto_spec_u64_to_from_le_bytes();
    lemma_unsigned_layout(p);
    let u = spec_unsigned_bytes(p);
    let sum = spec_checksum(u);
    let e = spec_into_bytes(p);
    let n = p.segment_table.len() as int;
    let length = (27 + n + p.data.len()) as nat;
    assert(e.subrange(0, 4) =~= u.subrange(0, 4));
    assert(e.subrange(6, 14) =~= u.subrange(6, 14));
    assert(e.subrange(14, 18) =~= u.subrange(14, 18));
    assert(e.subrange(18, 22) =~= u.subrange(18, 22));
    assert(e.subrange(22, 26) =~= spec_u32_to_le_bytes(sum));
    assert(e.subrange(27, 27 + n) =~= u.subrange(27, 27 + n));
    assert(e.subrange(27 + n, length as int) =~= u.subrange(27 + n, length as int));
    assert(e.subrange(0, length as int) =~= e);
    assert(spec_with_checksum_field(e, seq![0u8, 0u8, 0u8, 0u8]) =~= spec_with_checksum_field(
        u,
        seq![0u8, 0u8, 0u8, 0u8],
    ));
    assert(OggPacketType::spec_from_code(p.packet_type.spec_code()) == Some(p.packet_type));
    assert(spec_get_length(e) == Ok::<nat, OggError>(length));
    assert(spec_fields(e, length) =~= (OggPacketView { checksum: sum, ..p }));
}

/// Where a page can be taken from a buffer, the length read from its header
/// is the number of bytes that taking it consumes.
pub proof fn lemma_length_agrees(bytes: Seq<u8>)
    ensures
        spec_from_bytes(bytes) matches Ok(taken) ==> spec_get_length(bytes) == Ok::<
            nat,
            OggError,
        >(taken.1),
        spec_get_length(bytes) matches Err(e) ==> spec_from_bytes(bytes) == Err::<
            (OggPacketView, nat),
            OggError,
        >(e),
{
}

/// A buffer of at least 27 bytes that does not start with `OggS` is
/// refused as malformed.
pub proof fn lemma_bad_magic(bytes: Seq<u8>)
    requires
        bytes.len() >= 27,
        bytes.subrange(0, 4) != spec_magic(),
    ensures
        spec_from_bytes(bytes) == Err::<(OggPacketView, nat), OggError>(
            OggError::MalformedHeader,
        ),
        spec_get_length(bytes) == Err::<nat, OggError>(OggError::MalformedHeader),
{
}

/// Only a lack of bytes can be mended by more bytes: where a buffer gives a
/// page, or is refused as malformed or for its checksum, the same buffer
/// with more bytes behind it gives the same page, or is refused alike.
pub proof fn lemma_from_bytes_extend(bytes: Seq<u8>, more: Seq<u8>)
    requires
        spec_from_bytes(bytes) != Err::<(OggPacketView, nat), OggError>(OggError::TruncatedInput),
    ensures
        spec_from_bytes(bytes + more) == spec_from_bytes(bytes),
        spec_get_length(bytes + more) == spec_get_length(bytes),
{
    let all = bytes + more;
    assert(all.subrange(0, 4) =~= bytes.subrange(0, 4));
    if spec_get_length(bytes) is Ok {
        let length = spec_get_length(bytes)->Ok_0;
        let n = bytes[26] as int;
        assert(all.subrange(27, 27 + n) =~= bytes.subrange(27, 27 + n));
        assert(all.subrange(6, 14) =~= bytes.subrange(6, 14));
        assert(all.subrange(14, 18) =~= bytes.subrange(14, 18));
        assert(all.subrange(18, 22) =~= bytes.subrange(18, 22));
        assert(all.subrange(22, 26) =~= bytes.subrange(22, 26));
        assert(all.subrange(27 + n, length as int) =~= bytes.subrange(27 + n, length as int));
        assert(all.subrange(0, length as int) =~= bytes.subrange(0, length as int));
    }
}

/// A page as it comes back from the wire: with its checksum in the
/// checksum field.
pub open spec fn spec_stamped(p: OggPacketView) -> OggPacketView {
    OggPacketView { checksum: spec_checksum(spec_unsigned_bytes(p)), ..p }
}

/// The bytes of pages on the wire, one after the other.
pub open spec fn spec_stream_bytes(pages: Seq<OggPacketView>) -> Seq<u8>
    decreases pages.len(),
{
    if pages.len() == 0 {
        Seq::empty()
    } else {
        spec_into_bytes(pages[0]) + spec_stream_bytes(pages.skip(1))
    }
}

/// Pages serialized one after the other come back one after the other:
/// taking pages from their bytes gives every page, with its checksum, and
/// goes on with what stands behind them.
pub proof fn lemma_round_trip_stream(pages: Seq<OggPacketView>, tail: Seq<u8>)
    requires
        forall|i: int| 0 <= i < pages.len() ==> (#[trigger] pages[i]).wf(),
    ensures
        spec_from_cursor(spec_stream_bytes(pages) + tail).0 == Seq::new(
            pages.len(),
            |i: int| spec_stamped(pages[i]),
        ) + spec_from_cursor(tail).0,
        spec_from_cursor(spec_stream_bytes(pages) + tail).1 == spec_stream_bytes(pages).len()
            + spec_from_cursor(tail).1,
    decreases pages.len(),
{
    let stamped = Seq::new(pages.len(), |i: int| spec_stamped(pages[i]));
    if pages.len() == 0 {
        assert(spec_stream_bytes(pages) + tail =~= tail);
        assert(stamped + spec_from_cursor(tail).0 =~= spec_from_cursor(tail).0);
    } else {
        let first = spec_into_bytes(pages[0]);
        let others = pages.skip(1);
        let rest = spec_stream_bytes(others) + tail;
        let all = spec_stream_bytes(pages) + tail;
        lemma_round_trip(pages[0]);
        lemma_from_bytes_extend(first, rest);
        assert(all =~= first + rest);
        assert(all.skip(first.len() as int) =~= rest);
        assert forall|i: int| 0 <= i < others.len() implies (#[trigger] others[i]).wf() by {
            assert(others[i] == pages[i + 1]);
        }
        lemma_round_trip_stream(others, tail);
        let stamped_others = Seq::new(others.len(), |i: int| spec_stamped(others[i]));
        assert(stamped =~= seq![spec_stamped(pages[0])] + stamped_others);
        assert(seq![spec_stamped(pages[0])] + (stamped_others + spec_from_cursor(tail).0)
            =~= stamped + spec_from_cursor(tail).0);
    }
}

} // verus!
