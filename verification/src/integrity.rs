use crate::checksum::{
    crc_shift, crc_shift8, crc_update, lemma_crc_concat, spec_checksum, spec_crc,
    spec_with_checksum_field,
};
use crate::codec::{
    spec_fields, spec_from_bytes, spec_get_length, spec_into_bytes, spec_magic,
    spec_unsigned_bytes,
};
use crate::error::OggError;
use crate::packet::{OggPacketType, OggPacketView};
use crate::roundtrip::{lemma_round_trip, lemma_unsigned_layout};
use vstd::bytes::{
    lemma_auto_spec_u32_to_from_le_bytes, spec_u32_from_le_bytes, spec_u32_to_le_bytes,
};
use vstd::prelude::*;

verus! {

/// Two runs of bytes of one length, combined byte by byte with exclusive or.
pub open spec fn spec_xor(a: Seq<u8>, b: Seq<u8>) -> Seq<u8> {
    Seq::new(a.len(), |i: int| a[i] ^ b[i])
}

/// A run of `n` zero bytes.
pub open spec fn spec_zeros(n: nat) -> Seq<u8> {
    Seq::new(n, |i: int| 0u8)
}

/// The bytes with bit `bit` of byte `i` flipped.
pub open spec fn spec_flip_bit(bytes: Seq<u8>, i: int, bit: u8) -> Seq<u8> {
    bytes.update(i, bytes[i] ^ (1u8 << bit))
}

proof fn lemma_shift_linear(a: u32, b: u32)
    by (bit_vector)
    ensures
        crc_shift(a ^ b) == crc_shift(a) ^ crc_shift(b),
{
}

proof fn lemma_shift8_linear(a: u32, b: u32)
    ensures
        crc_shift8(a ^ b) == crc_shift8(a) ^ crc_shift8(b),
{
    let a1 = crc_shift(a);
    let b1 = crc_shift(b);
    let a2 = crc_shift(a1);
    let b2 = crc_shift(b1);
    let a3 = crc_shift(a2);
    let b3 = crc_shift(b2);
    let a4 = crc_shift(a3);
    let b4 = crc_shift(b3);
    let a5 = crc_shift(a4);
    let b5 = crc_shift(b4);
    let a6 = crc_shift(a5);
    let b6 = crc_shift(b5);
    let a7 = crc_shift(a6);
    let b7 = crc_shift(b6);
    lemma_shift_linear(a, b);
    lemma_shift_linear(a1, b1);
    lemma_shift_linear(a2, b2);
    lemma_shift_linear(a3, b3);
    lemma_shift_linear(a4, b4);
    lemma_shift_linear(a5, b5);
    lemma_shift_linear(a6, b6);
    lemma_shift_linear(a7, b7);
}

proof fn lemma_shift8_low(low: u32)
    by (bit_vector)
    requires
        low & 0xff00_0000u32 == 0,
    ensures
        crc_shift8(low) == low << 8,
{
}

proof fn lemma_split_register(c: u32, b: u8)
    by (bit_vector)
    ensures
        c ^ ((b as u32) << 24) == (((b ^ ((c >> 24) as u8)) as u32) << 24) ^ (c & 0x00ff_ffffu32),
        (c & 0x00ff_ffffu32) & 0xff00_0000u32 == 0,
        (c & 0x00ff_ffffu32) << 8 == c << 8,
{
}

proof fn lemma_join_registers(c1: u32, c2: u32, b1: u8, b2: u8)
    by (bit_vector)
    ensures
        (c1 ^ c2) ^ (((b1 ^ b2) as u32) << 24) == (c1 ^ ((b1 as u32) << 24)) ^ (c2 ^ ((b2 as u32)
            << 24)),
{
}

/// One byte more is eight steps of the shift register, after the byte has
/// been folded into the top of the register.
proof fn lemma_update_is_shift8(c: u32, b: u8)
    ensures
        crc_update(c, b) == crc_shift8(c ^ ((b as u32) << 24)),
{
    let top = ((b ^ ((c >> 24) as u8)) as u32) << 24;
    let low = c & 0x00ff_ffffu32;
    lemma_split_register(c, b);
    lemma_shift8_linear(top, low);
    lemma_shift8_low(low);
    lemma_xor_commutes(low << 8, crc_shift8(top));
}

proof fn lemma_xor_commutes(x: u32, y: u32)
    by (bit_vector)
    ensures
        x ^ y == y ^ x,
{
}

proof fn lemma_update_linear(c1: u32, c2: u32, b1: u8, b2: u8)
    ensures
        crc_update(c1 ^ c2, b1 ^ b2) == crc_update(c1, b1) ^ crc_update(c2, b2),
{
    lemma_update_is_shift8(c1 ^ c2, b1 ^ b2);
    lemma_update_is_shift8(c1, b1);
    lemma_update_is_shift8(c2, b2);
    lemma_join_registers(c1, c2, b1, b2);
    lemma_shift8_linear(c1 ^ ((b1 as u32) << 24), c2 ^ ((b2 as u32) << 24));
}

proof fn lemma_update_nonzero(c: u32, b: u8)
    by (bit_vector)
    ensures
        crc_update(0, 0) == 0,
        c != 0 ==> crc_update(c, 0) != 0,
        b != 0 ==> crc_update(0, b) != 0,
{
}

proof fn lemma_xor_u8(a: u8, b: u8)
    by (bit_vector)
    ensures
        a ^ 0 == a,
        a ^ (a ^ b) == b,
        a != b ==> a ^ b != 0,
{
}

proof fn lemma_xor_u32(x: u32, y: u32)
    by (bit_vector)
    ensures
        x ^ y == x ==> y == 0,
        0u32 ^ 0u32 == 0u32,
{
}

proof fn lemma_flip_changes(a: u8, bit: u8)
    by (bit_vector)
    requires
        bit < 8,
    ensures
        a ^ (1u8 << bit) != a,
{
}

/// The checksum is linear: over two runs of one length combined with
/// exclusive or, it is the exclusive or of the checksums of the runs.
pub proof fn lemma_crc_xor(c1: u32, c2: u32, a: Seq<u8>, b: Seq<u8>)
    requires
        a.len() == b.len(),
    ensures
        spec_crc(c1 ^ c2, spec_xor(a, b)) == spec_crc(c1, a) ^ spec_crc(c2, b),
    decreases a.len(),
{
    if a.len() > 0 {
        lemma_crc_xor(c1, c2, a.drop_last(), b.drop_last());
        assert(spec_xor(a, b).drop_last() =~= spec_xor(a.drop_last(), b.drop_last()));
        lemma_update_linear(
            spec_crc(c1, a.drop_last()),
            spec_crc(c2, b.drop_last()),
            a.last(),
            b.last(),
        );
    }
}

/// Zero bytes keep a checksum of zero at zero, and never bring another
/// checksum to zero.
pub proof fn lemma_crc_zeros(c: u32, n: nat)
    ensures
        c == 0 ==> spec_crc(c, spec_zeros(n)) == 0,
        c != 0 ==> spec_crc(c, spec_zeros(n)) != 0,
    decreases n,
{
    if n > 0 {
        lemma_crc_zeros(c, (n - 1) as nat);
        assert(spec_zeros(n).drop_last() =~= spec_zeros((n - 1) as nat));
        lemma_update_nonzero(spec_crc(c, spec_zeros((n - 1) as nat)), 0);
    }
}

/// A run of bytes that is zero but for one byte has a checksum other than
/// zero.
pub proof fn lemma_crc_single_byte(n: nat, i: int, mask: u8)
    requires
        0 <= i < n,
        mask != 0,
    ensures
        spec_crc(0, spec_zeros(n).update(i, mask)) != 0,
{
    let e = spec_zeros(n).update(i, mask);
    let head = spec_zeros(i as nat);
    let tail = spec_zeros((n - i - 1) as nat);
    assert(e =~= head + seq![mask] + tail);
    lemma_crc_concat(0, head + seq![mask], tail);
    lemma_crc_concat(0, head, seq![mask]);
    lemma_crc_zeros(0, i as nat);
    assert(seq![mask].drop_last() =~= Seq::<u8>::empty());
    assert(spec_crc(0, Seq::<u8>::empty()) == 0);
    assert(spec_crc(0, seq![mask]) == crc_update(0, mask));
    lemma_update_nonzero(0, mask);
    lemma_crc_zeros(crc_update(0, mask), (n - i - 1) as nat);
}

/// A change to one byte changes the checksum of a run of bytes.
pub proof fn lemma_crc_detects_byte(bytes: Seq<u8>, i: int, value: u8)
    requires
        0 <= i < bytes.len(),
        value != bytes[i],
    ensures
        spec_crc(0, bytes.update(i, value)) != spec_crc(0, bytes),
{
    let mask = bytes[i] ^ value;
    let e = spec_zeros(bytes.len()).update(i, mask);
    lemma_xor_u8(bytes[i], value);
    assert(bytes.update(i, value) =~= spec_xor(bytes, e)) by {
        assert forall|j: int| 0 <= j < bytes.len() implies bytes.update(i, value)[j] == spec_xor(
            bytes,
            e,
        )[j] by {
            lemma_xor_u8(bytes[j], value);
        }
    }
    lemma_xor_u32(0, 0);
    lemma_crc_xor(0, 0, bytes, e);
    lemma_crc_single_byte(bytes.len(), i, mask);
    lemma_xor_u32(spec_crc(0, bytes), spec_crc(0, e));
}

/// A change to one byte of a serialized page is found out when the page is
/// taken back. A change to the magic or to the version gives a malformed
/// header; a change to the type does so too, or else the checksum does not
/// match; a change to any byte of the granule position, the stream id, the
/// packet index, the checksum or the payload gives a checksum that does not
/// match. Nothing is said of the number of segments and of the segment table:
/// a change there moves the end of the page.
pub proof fn lemma_changed_byte_is_refused(p: OggPacketView, i: int, value: u8)
    requires
        p.wf(),
        0 <= i < spec_into_bytes(p).len(),
        value != spec_into_bytes(p)[i],
    ensures
        i < 5 ==> spec_from_bytes(spec_into_bytes(p).update(i, value)) == Err::<
            (OggPacketView, nat),
            OggError,
        >(OggError::MalformedHeader),
        i == 5 ==> spec_from_bytes(spec_into_bytes(p).update(i, value)) == Err::<
            (OggPacketView, nat),
            OggError,
        >(OggError::MalformedHeader) || spec_from_bytes(spec_into_bytes(p).update(i, value))
            == Err::<(OggPacketView, nat), OggError>(OggError::ChecksumMismatch),
        6 <= i < 26 || i >= 27 + p.segment_table.len() ==> spec_from_bytes(
            spec_into_bytes(p).update(i, value),
        ) == Err::<(OggPacketView, nat), OggError>(OggError::ChecksumMismatch),
{
    lemma_auto_spec_u32_to_from_le_bytes();
    lemma_round_trip(p);
    lemma_unsigned_layout(p);
    let u = spec_unsigned_bytes(p);
    let sum = spec_checksum(u);
    let e = spec_into_bytes(p);
    let changed = e.update(i, value);
    let n = p.segment_table.len() as int;
    let length = e.len();
    let zero_field = seq![0u8, 0u8, 0u8, 0u8];
    assert(spec_with_checksum_field(u, zero_field) =~= u);
    assert(spec_with_checksum_field(e, zero_field) =~= u);
    if i < 4 {
        assert(changed.subrange(0, 4)[i] == value);
        assert(e.subrange(0, 4)[i] == e[i]);
    } else if i == 4 {
    } else if i == 5 || 6 <= i < 26 || i >= 27 + n {
        assert(changed.subrange(0, 4) =~= e.subrange(0, 4));
        assert(changed.subrange(27, 27 + n) =~= e.subrange(27, 27 + n));
        if OggPacketType::spec_from_code(changed[5]) is Some {
            assert(spec_get_length(changed) == Ok::<nat, OggError>(length));
            assert(changed.subrange(0, length as int) =~= changed);
            if 22 <= i < 26 {
                // The stored checksum changes; the computed one does not.
                assert(spec_with_checksum_field(changed, zero_field) =~= u);
                let field = changed.subrange(22, 26);
                assert(e.subrange(22, 26) =~= spec_u32_to_le_bytes(sum));
                assert(field[i - 22] == value);
                assert(e.subrange(22, 26)[i - 22] == e[i]);
                assert(field != spec_u32_to_le_bytes(sum));
                assert(spec_u32_to_le_bytes(spec_u32_from_le_bytes(field)) == field);
                assert(spec_fields(changed, length).checksum != sum);
            } else {
                // The computed checksum changes; the stored one does not.
                assert(changed.subrange(22, 26) =~= e.subrange(22, 26));
                assert(e.subrange(22, 26) =~= spec_u32_to_le_bytes(sum));
                assert(spec_with_checksum_field(changed, zero_field) =~= u.update(i, value));
                lemma_crc_detects_byte(u, i, value);
                assert(spec_fields(changed, length).checksum == sum);
            }
        }
    }
}

/// A flipped bit in a serialized page is found out like any change to one
/// byte: in the granule position, the stream id, the packet index, the
/// checksum or the payload it gives a checksum that does not match, and in
/// the magic or the version a malformed header.
pub proof fn lemma_flipped_bit_is_refused(p: OggPacketView, i: int, bit: u8)
    requires
        p.wf(),
        0 <= i < spec_into_bytes(p).len(),
        bit < 8,
    ensures
        i < 5 ==> spec_from_bytes(spec_flip_bit(spec_into_bytes(p), i, bit)) == Err::<
            (OggPacketView, nat),
            OggError,
        >(OggError::MalformedHeader),
        6 <= i < 26 || i >= 27 + p.segment_table.len() ==> spec_from_bytes(
            spec_flip_bit(spec_into_bytes(p), i, bit),
        ) == Err::<(OggPacketView, nat), OggError>(OggError::ChecksumMismatch),
{
    lemma_flip_changes(spec_into_bytes(p)[i], bit);
    lemma_changed_byte_is_refused(p, i, spec_into_bytes(p)[i] ^ (1u8 << bit));
}

} // verus!
