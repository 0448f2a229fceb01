use crate::error::OggError;
use crate::packet::OggPacket;
use vstd::bytes::{spec_u32_to_le_bytes, u32_to_le_bytes};
use vstd::prelude::*;
use vstd::slice::slice_to_vec;

verus! {

/// The length of the fixed part of a page, before the segment table.
pub const HEADER_SIZE: usize = 27;

/// Generator polynomial of the page checksum, most significant bit first,
/// without its leading term.
pub const CRC_POLYNOMIAL: u32 = 0x04c11db7;

/// One step of the shift register: shift left by one bit and fold the
/// polynomial in when a set bit falls out at the top.
pub open spec fn crc_shift(r: u32) -> u32 {
    if r & 0x8000_0000u32 != 0 {
        (r << 1) ^ CRC_POLYNOMIAL
    } else {
        r << 1
    }
}

/// Eight steps of the shift register.
pub open spec fn crc_shift8(r: u32) -> u32 {
    crc_shift(crc_shift(crc_shift(crc_shift(crc_shift(crc_shift(crc_shift(crc_shift(r))))))))
}

/// Entry `i` of the lookup table: the register seeded with `i` in its top
/// byte, after eight steps.
pub open spec fn crc_table_entry(i: u8) -> u32 {
    crc_shift8((i as u32) << 24)
}

/// The table of all 256 entries.
pub const CRC_TABLE: [u32; 256] = [
    0x00000000, 0x04c11db7, 0x09823b6e, 0x0d4326d9,
    0x130476dc, 0x17c56b6b, 0x1a864db2, 0x1e475005,
    0x2608edb8, 0x22c9f00f, 0x2f8ad6d6, 0x2b4bcb61,
    0x350c9b64, 0x31cd86d3, 0x3c8ea00a, 0x384fbdbd,
    0x4c11db70, 0x48d0c6c7, 0x4593e01e, 0x4152fda9,
    0x5f15adac, 0x5bd4b01b, 0x569796c2, 0x52568b75,
    0x6a1936c8, 0x6ed82b7f, 0x639b0da6, 0x675a1011,
    0x791d4014, 0x7ddc5da3, 0x709f7b7a, 0x745e66cd,
    0x9823b6e0, 0x9ce2ab57, 0x91a18d8e, 0x95609039,
    0x8b27c03c, 0x8fe6dd8b, 0x82a5fb52, 0x8664e6e5,
    0xbe2b5b58, 0xbaea46ef, 0xb7a96036, 0xb3687d81,
    0xad2f2d84, 0xa9ee3033, 0xa4ad16ea, 0xa06c0b5d,
    0xd4326d90, 0xd0f37027, 0xddb056fe, 0xd9714b49,
    0xc7361b4c, 0xc3f706fb, 0xceb42022, 0xca753d95,
    0xf23a8028, 0xf6fb9d9f, 0xfbb8bb46, 0xff79a6f1,
    0xe13ef6f4, 0xe5ffeb43, 0xe8bccd9a, 0xec7dd02d,
    0x34867077, 0x30476dc0, 0x3d044b19, 0x39c556ae,
    0x278206ab, 0x23431b1c, 0x2e003dc5, 0x2ac12072,
    0x128e9dcf, 0x164f8078, 0x1b0ca6a1, 0x1fcdbb16,
    0x018aeb13, 0x054bf6a4, 0x0808d07d, 0x0cc9cdca,
    0x7897ab07, 0x7c56b6b0, 0x71159069, 0x75d48dde,
    0x6b93dddb, 0x6f52c06c, 0x6211e6b5, 0x66d0fb02,
    0x5e9f46bf, 0x5a5e5b08, 0x571d7dd1, 0x53dc6066,
    0x4d9b3063, 0x495a2dd4, 0x44190b0d, 0x40d816ba,
    0xaca5c697, 0xa864db20, 0xa527fdf9, 0xa1e6e04e,
    0xbfa1b04b, 0xbb60adfc, 0xb6238b25, 0xb2e29692,
    0x8aad2b2f, 0x8e6c3698, 0x832f1041, 0x87ee0df6,
    0x99a95df3, 0x9d684044, 0x902b669d, 0x94ea7b2a,
    0xe0b41de7, 0xe4750050, 0xe9362689, 0xedf73b3e,
    0xf3b06b3b, 0xf771768c, 0xfa325055, 0xfef34de2,
    0xc6bcf05f, 0xc27dede8, 0xcf3ecb31, 0xcbffd686,
    0xd5b88683, 0xd1799b34, 0xdc3abded, 0xd8fba05a,
    0x690ce0ee, 0x6dcdfd59, 0x608edb80, 0x644fc637,
    0x7a089632, 0x7ec98b85, 0x738aad5c, 0x774bb0eb,
    0x4f040d56, 0x4bc510e1, 0x46863638, 0x42472b8f,
    0x5c007b8a, 0x58c1663d, 0x558240e4, 0x51435d53,
    0x251d3b9e, 0x21dc2629, 0x2c9f00f0, 0x285e1d47,
    0x36194d42, 0x32d850f5, 0x3f9b762c, 0x3b5a6b9b,
    0x0315d626, 0x07d4cb91, 0x0a97ed48, 0x0e56f0ff,
    0x1011a0fa, 0x14d0bd4d, 0x19939b94, 0x1d528623,
    0xf12f560e, 0xf5ee4bb9, 0xf8ad6d60, 0xfc6c70d7,
    0xe22b20d2, 0xe6ea3d65, 0xeba91bbc, 0xef68060b,
    0xd727bbb6, 0xd3e6a601, 0xdea580d8, 0xda649d6f,
    0xc423cd6a, 0xc0e2d0dd, 0xcda1f604, 0xc960ebb3,
    0xbd3e8d7e, 0xb9ff90c9, 0xb4bcb610, 0xb07daba7,
    0xae3afba2, 0xaafbe615, 0xa7b8c0cc, 0xa379dd7b,
    0x9b3660c6, 0x9ff77d71, 0x92b45ba8, 0x9675461f,
    0x8832161a, 0x8cf30bad, 0x81b02d74, 0x857130c3,
    0x5d8a9099, 0x594b8d2e, 0x5408abf7, 0x50c9b640,
    0x4e8ee645, 0x4a4ffbf2, 0x470cdd2b, 0x43cdc09c,
    0x7b827d21, 0x7f436096, 0x7200464f, 0x76c15bf8,
    0x68860bfd, 0x6c47164a, 0x61043093, 0x65c52d24,
    0x119b4be9, 0x155a565e, 0x18197087, 0x1cd86d30,
    0x029f3d35, 0x065e2082, 0x0b1d065b, 0x0fdc1bec,
    0x3793a651, 0x3352bbe6, 0x3e119d3f, 0x3ad08088,
    0x2497d08d, 0x2056cd3a, 0x2d15ebe3, 0x29d4f654,
    0xc5a92679, 0xc1683bce, 0xcc2b1d17, 0xc8ea00a0,
    0xd6ad50a5, 0xd26c4d12, 0xdf2f6bcb, 0xdbee767c,
    0xe3a1cbc1, 0xe760d676, 0xea23f0af, 0xeee2ed18,
    0xf0a5bd1d, 0xf464a0aa, 0xf9278673, 0xfde69bc4,
    0x89b8fd09, 0x8d79e0be, 0x803ac667, 0x84fbdbd0,
    0x9abc8bd5, 0x9e7d9662, 0x933eb0bb, 0x97ffad0c,
    0xafb010b1, 0xab710d06, 0xa6322bdf, 0xa2f33668,
    0xbcb4666d, 0xb8757bda, 0xb5365d03, 0xb1f740b4,
];

proof fn lemma_crc_table_block_0(i: u8)
    requires
        0 <= i < 32,
    ensures
        CRC_TABLE[i as int] == crc_table_entry(i),
{
    assert({
        &&& crc_table_entry(0) == 0x00000000u32
        &&& crc_table_entry(1) == 0x04c11db7u32
        &&& crc_table_entry(2) == 0x09823b6eu32
        &&& crc_table_entry(3) == 0x0d4326d9u32
        &&& crc_table_entry(4) == 0x130476dcu32
        &&& crc_table_entry(5) == 0x17c56b6bu32
        &&& crc_table_entry(6) == 0x1a864db2u32
        &&& crc_table_entry(7) == 0x1e475005u32
        &&& crc_table_entry(8) == 0x2608edb8u32
        &&& crc_table_entry(9) == 0x22c9f00fu32
        &&& crc_table_entry(10) == 0x2f8ad6d6u32
        &&& crc_table_entry(11) == 0x2b4bcb61u32
        &&& crc_table_entry(12) == 0x350c9b64u32
        &&& crc_table_entry(13) == 0x31cd86d3u32
        &&& crc_table_entry(14) == 0x3c8ea00au32
        &&& crc_table_entry(15) == 0x384fbdbdu32
        &&& crc_table_entry(16) == 0x4c11db70u32
        &&& crc_table_entry(17) == 0x48d0c6c7u32
        &&& crc_table_entry(18) == 0x4593e01eu32
        &&& crc_table_entry(19) == 0x4152fda9u32
        &&& crc_table_entry(20) == 0x5f15adacu32
        &&& crc_table_entry(21) == 0x5bd4b01bu32
        &&& crc_table_entry(22) == 0x569796c2u32
        &&& crc_table_entry(23) == 0x52568b75u32
        &&& crc_table_entry(24) == 0x6a1936c8u32
        &&& crc_table_entry(25) == 0x6ed82b7fu32
        &&& crc_table_entry(26) == 0x639b0da6u32
        &&& crc_table_entry(27) == 0x675a1011u32
        &&& crc_table_entry(28) == 0x791d4014u32
        &&& crc_table_entry(29) == 0x7ddc5da3u32
        &&& crc_table_entry(30) == 0x709f7b7au32
        &&& crc_table_entry(31) == 0x745e66cdu32
    }) by (bit_vector);
}

proof fn lemma_crc_table_block_1(i: u8)
    requires
        32 <= i < 64,
    ensures
        CRC_TABLE[i as int] == crc_table_entry(i),
{
    assert({
        &&& crc_table_entry(32) == 0x9823b6e0u32
        &&& crc_table_entry(33) == 0x9ce2ab57u32
        &&& crc_table_entry(34) == 0x91a18d8eu32
        &&& crc_table_entry(35) == 0x95609039u32
        &&& crc_table_entry(36) == 0x8b27c03cu32
        &&& crc_table_entry(37) == 0x8fe6dd8bu32
        &&& crc_table_entry(38) == 0x82a5fb52u32
        &&& crc_table_entry(39) == 0x8664e6e5u32
        &&& crc_table_entry(40) == 0xbe2b5b58u32
        &&& crc_table_entry(41) == 0xbaea46efu32
        &&& crc_table_entry(42) == 0xb7a96036u32
        &&& crc_table_entry(43) == 0xb3687d81u32
        &&& crc_table_entry(44) == 0xad2f2d84u32
        &&& crc_table_entry(45) == 0xa9ee3033u32
        &&& crc_table_entry(46) == 0xa4ad16eau32
        &&& crc_table_entry(47) == 0xa06c0b5du32
        &&& crc_table_entry(48) == 0xd4326d90u32
        &&& crc_table_entry(49) == 0xd0f37027u32
        &&& crc_table_entry(50) == 0xddb056feu32
        &&& crc_table_entry(51) == 0xd9714b49u32
        &&& crc_table_entry(52) == 0xc7361b4cu32
        &&& crc_table_entry(53) == 0xc3f706fbu32
        &&& crc_table_entry(54) == 0xceb42022u32
        &&& crc_table_entry(55) == 0xca753d95u32
        &&& crc_table_entry(56) == 0xf23a8028u32
        &&& crc_table_entry(57) == 0xf6fb9d9fu32
        &&& crc_table_entry(58) == 0xfbb8bb46u32
        &&& crc_table_entry(59) == 0xff79a6f1u32
        &&& crc_table_entry(60) == 0xe13ef6f4u32
        &&& crc_table_entry(61) == 0xe5ffeb43u32
        &&& crc_table_entry(62) == 0xe8bccd9au32
        &&& crc_table_entry(63) == 0xec7dd02du32
    }) by (bit_vector);
}

proof fn lemma_crc_table_block_2(i: u8)
    requires
        64 <= i < 96,
    ensures
        CRC_TABLE[i as int] == crc_table_entry(i),
{
    assert({
        &&& crc_table_entry(64) == 0x34867077u32
        &&& crc_table_entry(65) == 0x30476dc0u32
        &&& crc_table_entry(66) == 0x3d044b19u32
        &&& crc_table_entry(67) == 0x39c556aeu32
        &&& crc_table_entry(68) == 0x278206abu32
        &&& crc_table_entry(69) == 0x23431b1cu32
        &&& crc_table_entry(70) == 0x2e003dc5u32
        &&& crc_table_entry(71) == 0x2ac12072u32
        &&& crc_table_entry(72) == 0x128e9dcfu32
        &&& crc_table_entry(73) == 0x164f8078u32
        &&& crc_table_entry(74) == 0x1b0ca6a1u32
        &&& crc_table_entry(75) == 0x1fcdbb16u32
        &&& crc_table_entry(76) == 0x018aeb13u32
        &&& crc_table_entry(77) == 0x054bf6a4u32
        &&& crc_table_entry(78) == 0x0808d07du32
        &&& crc_table_entry(79) == 0x0cc9cdcau32
        &&& crc_table_entry(80) == 0x7897ab07u32
        &&& crc_table_entry(81) == 0x7c56b6b0u32
        &&& crc_table_entry(82) == 0x71159069u32
        &&& crc_table_entry(83) == 0x75d48ddeu32
        &&& crc_table_entry(84) == 0x6b93dddbu32
        &&& crc_table_entry(85) == 0x6f52c06cu32
        &&& crc_table_entry(86) == 0x6211e6b5u32
        &&& crc_table_entry(87) == 0x66d0fb02u32
        &&& crc_table_entry(88) == 0x5e9f46bfu32
        &&& crc_table_entry(89) == 0x5a5e5b08u32
        &&& crc_table_entry(90) == 0x571d7dd1u32
        &&& crc_table_entry(91) == 0x53dc6066u32
        &&& crc_table_entry(92) == 0x4d9b3063u32
        &&& crc_table_entry(93) == 0x495a2dd4u32
        &&& crc_table_entry(94) == 0x44190b0du32
        &&& crc_table_entry(95) == 0x40d816bau32
    }) by (bit_vector);
}

proof fn lemma_crc_table_block_3(i: u8)
    requires
        96 <= i < 128,
    ensures
        CRC_TABLE[i as int] == crc_table_entry(i),
{
    assert({
        &&& crc_table_entry(96) == 0xaca5c697u32
        &&& crc_table_entry(97) == 0xa864db20u32
        &&& crc_table_entry(98) == 0xa527fdf9u32
        &&& crc_table_entry(99) == 0xa1e6e04eu32
        &&& crc_table_entry(100) == 0xbfa1b04bu32
        &&& crc_table_entry(101) == 0xbb60adfcu32
        &&& crc_table_entry(102) == 0xb6238b25u32
        &&& crc_table_entry(103) == 0xb2e29692u32
        &&& crc_table_entry(104) == 0x8aad2b2fu32
        &&& crc_table_entry(105) == 0x8e6c3698u32
        &&& crc_table_entry(106) == 0x832f1041u32
        &&& crc_table_entry(107) == 0x87ee0df6u32
        &&& crc_table_entry(108) == 0x99a95df3u32
        &&& crc_table_entry(109) == 0x9d684044u32
        &&& crc_table_entry(110) == 0x902b669du32
        &&& crc_table_entry(111) == 0x94ea7b2au32
        &&& crc_table_entry(112) == 0xe0b41de7u32
        &&& crc_table_entry(113) == 0xe4750050u32
        &&& crc_table_entry(114) == 0xe9362689u32
        &&& crc_table_entry(115) == 0xedf73b3eu32
        &&& crc_table_entry(116) == 0xf3b06b3bu32
        &&& crc_table_entry(117) == 0xf771768cu32
        &&& crc_table_entry(118) == 0xfa325055u32
        &&& crc_table_entry(119) == 0xfef34de2u32
        &&& crc_table_entry(120) == 0xc6bcf05fu32
        &&& crc_table_entry(121) == 0xc27dede8u32
        &&& crc_table_entry(122) == 0xcf3ecb31u32
        &&& crc_table_entry(123) == 0xcbffd686u32
        &&& crc_table_entry(124) == 0xd5b88683u32
        &&& crc_table_entry(125) == 0xd1799b34u32
        &&& crc_table_entry(126) == 0xdc3abdedu32
        &&& crc_table_entry(127) == 0xd8fba05au32
    }) by (bit_vector);
}

proof fn lemma_crc_table_block_4(i: u8)
    requires
        128 <= i < 160,
    ensures
        CRC_TABLE[i as int] == crc_table_entry(i),
{
    assert({
        &&& crc_table_entry(128) == 0x690ce0eeu32
        &&& crc_table_entry(129) == 0x6dcdfd59u32
        &&& crc_table_entry(130) == 0x608edb80u32
        &&& crc_table_entry(131) == 0x644fc637u32
        &&& crc_table_entry(132) == 0x7a089632u32
        &&& crc_table_entry(133) == 0x7ec98b85u32
        &&& crc_table_entry(134) == 0x738aad5cu32
        &&& crc_table_entry(135) == 0x774bb0ebu32
        &&& crc_table_entry(136) == 0x4f040d56u32
        &&& crc_table_entry(137) == 0x4bc510e1u32
        &&& crc_table_entry(138) == 0x46863638u32
        &&& crc_table_entry(139) == 0x42472b8fu32
        &&& crc_table_entry(140) == 0x5c007b8au32
        &&& crc_table_entry(141) == 0x58c1663du32
        &&& crc_table_entry(142) == 0x558240e4u32
        &&& crc_table_entry(143) == 0x51435d53u32
        &&& crc_table_entry(144) == 0x251d3b9eu32
        &&& crc_table_entry(145) == 0x21dc2629u32
        &&& crc_table_entry(146) == 0x2c9f00f0u32
        &&& crc_table_entry(147) == 0x285e1d47u32
        &&& crc_table_entry(148) == 0x36194d42u32
        &&& crc_table_entry(149) == 0x32d850f5u32
        &&& crc_table_entry(150) == 0x3f9b762cu32
        &&& crc_table_entry(151) == 0x3b5a6b9bu32
        &&& crc_table_entry(152) == 0x0315d626u32
        &&& crc_table_entry(153) == 0x07d4cb91u32
        &&& crc_table_entry(154) == 0x0a97ed48u32
        &&& crc_table_entry(155) == 0x0e56f0ffu32
        &&& crc_table_entry(156) == 0x1011a0fau32
        &&& crc_table_entry(157) == 0x14d0bd4du32
        &&& crc_table_entry(158) == 0x19939b94u32
        &&& crc_table_entry(159) == 0x1d528623u32
    }) by (bit_vector);
}

proof fn lemma_crc_table_block_5(i: u8)
    requires
        160 <= i < 192,
    ensures
        CRC_TABLE[i as int] == crc_table_entry(i),
{
    assert({
        &&& crc_table_entry(160) == 0xf12f560eu32
        &&& crc_table_entry(161) == 0xf5ee4bb9u32
        &&& crc_table_entry(162) == 0xf8ad6d60u32
        &&& crc_table_entry(163) == 0xfc6c70d7u32
        &&& crc_table_entry(164) == 0xe22b20d2u32
        &&& crc_table_entry(165) == 0xe6ea3d65u32
        &&& crc_table_entry(166) == 0xeba91bbcu32
        &&& crc_table_entry(167) == 0xef68060bu32
        &&& crc_table_entry(168) == 0xd727bbb6u32
        &&& crc_table_entry(169) == 0xd3e6a601u32
        &&& crc_table_entry(170) == 0xdea580d8u32
        &&& crc_table_entry(171) == 0xda649d6fu32
        &&& crc_table_entry(172) == 0xc423cd6au32
        &&& crc_table_entry(173) == 0xc0e2d0ddu32
        &&& crc_table_entry(174) == 0xcda1f604u32
        &&& crc_table_entry(175) == 0xc960ebb3u32
        &&& crc_table_entry(176) == 0xbd3e8d7eu32
        &&& crc_table_entry(177) == 0xb9ff90c9u32
        &&& crc_table_entry(178) == 0xb4bcb610u32
        &&& crc_table_entry(179) == 0xb07daba7u32
        &&& crc_table_entry(180) == 0xae3afba2u32
        &&& crc_table_entry(181) == 0xaafbe615u32
        &&& crc_table_entry(182) == 0xa7b8c0ccu32
        &&& crc_table_entry(183) == 0xa379dd7bu32
        &&& crc_table_entry(184) == 0x9b3660c6u32
        &&& crc_table_entry(185) == 0x9ff77d71u32
        &&& crc_table_entry(186) == 0x92b45ba8u32
        &&& crc_table_entry(187) == 0x9675461fu32
        &&& crc_table_entry(188) == 0x8832161au32
        &&& crc_table_entry(189) == 0x8cf30badu32
        &&& crc_table_entry(190) == 0x81b02d74u32
        &&& crc_table_entry(191) == 0x857130c3u32
    }) by (bit_vector);
}

proof fn lemma_crc_table_block_6(i: u8)
    requires
        192 <= i < 224,
    ensures
        CRC_TABLE[i as int] == crc_table_entry(i),
{
    assert({
        &&& crc_table_entry(192) == 0x5d8a9099u32
        &&& crc_table_entry(193) == 0x594b8d2eu32
        &&& crc_table_entry(194) == 0x5408abf7u32
        &&& crc_table_entry(195) == 0x50c9b640u32
        &&& crc_table_entry(196) == 0x4e8ee645u32
        &&& crc_table_entry(197) == 0x4a4ffbf2u32
        &&& crc_table_entry(198) == 0x470cdd2bu32
        &&& crc_table_entry(199) == 0x43cdc09cu32
        &&& crc_table_entry(200) == 0x7b827d21u32
        &&& crc_table_entry(201) == 0x7f436096u32
        &&& crc_table_entry(202) == 0x7200464fu32
        &&& crc_table_entry(203) == 0x76c15bf8u32
        &&& crc_table_entry(204) == 0x68860bfdu32
        &&& crc_table_entry(205) == 0x6c47164au32
        &&& crc_table_entry(206) == 0x61043093u32
        &&& crc_table_entry(207) == 0x65c52d24u32
        &&& crc_table_entry(208) == 0x119b4be9u32
        &&& crc_table_entry(209) == 0x155a565eu32
        &&& crc_table_entry(210) == 0x18197087u32
        &&& crc_table_entry(211) == 0x1cd86d30u32
        &&& crc_table_entry(212) == 0x029f3d35u32
        &&& crc_table_entry(213) == 0x065e2082u32
        &&& crc_table_entry(214) == 0x0b1d065bu32
        &&& crc_table_entry(215) == 0x0fdc1becu32
        &&& crc_table_entry(216) == 0x3793a651u32
        &&& crc_table_entry(217) == 0x3352bbe6u32
        &&& crc_table_entry(218) == 0x3e119d3fu32
        &&& crc_table_entry(219) == 0x3ad08088u32
        &&& crc_table_entry(220) == 0x2497d08du32
        &&& crc_table_entry(221) == 0x2056cd3au32
        &&& crc_table_entry(222) == 0x2d15ebe3u32
        &&& crc_table_entry(223) == 0x29d4f654u32
    }) by (bit_vector);
}

proof fn lemma_crc_table_block_7(i: u8)
    requires
        224 <= i < 256,
    ensures
        CRC_TABLE[i as int] == crc_table_entry(i),
{
    assert({
        &&& crc_table_entry(224) == 0xc5a92679u32
        &&& crc_table_entry(225) == 0xc1683bceu32
        &&& crc_table_entry(226) == 0xcc2b1d17u32
        &&& crc_table_entry(227) == 0xc8ea00a0u32
        &&& crc_table_entry(228) == 0xd6ad50a5u32
        &&& crc_table_entry(229) == 0xd26c4d12u32
        &&& crc_table_entry(230) == 0xdf2f6bcbu32
        &&& crc_table_entry(231) == 0xdbee767cu32
        &&& crc_table_entry(232) == 0xe3a1cbc1u32
        &&& crc_table_entry(233) == 0xe760d676u32
        &&& crc_table_entry(234) == 0xea23f0afu32
        &&& crc_table_entry(235) == 0xeee2ed18u32
        &&& crc_table_entry(236) == 0xf0a5bd1du32
        &&& crc_table_entry(237) == 0xf464a0aau32
        &&& crc_table_entry(238) == 0xf9278673u32
        &&& crc_table_entry(239) == 0xfde69bc4u32
        &&& crc_table_entry(240) == 0x89b8fd09u32
        &&& crc_table_entry(241) == 0x8d79e0beu32
        &&& crc_table_entry(242) == 0x803ac667u32
        &&& crc_table_entry(243) == 0x84fbdbd0u32
        &&& crc_table_entry(244) == 0x9abc8bd5u32
        &&& crc_table_entry(245) == 0x9e7d9662u32
        &&& crc_table_entry(246) == 0x933eb0bbu32
        &&& crc_table_entry(247) == 0x97ffad0cu32
        &&& crc_table_entry(248) == 0xafb010b1u32
        &&& crc_table_entry(249) == 0xab710d06u32
        &&& crc_table_entry(250) == 0xa6322bdfu32
        &&& crc_table_entry(251) == 0xa2f33668u32
        &&& crc_table_entry(252) == 0xbcb4666du32
        &&& crc_table_entry(253) == 0xb8757bdau32
        &&& crc_table_entry(254) == 0xb5365d03u32
        &&& crc_table_entry(255) == 0xb1f740b4u32
    }) by (bit_vector);
}

/// Every entry of the constant table is what the shift register computes.
pub proof fn lemma_crc_table(i: u8)
    ensures
        CRC_TABLE[i as int] == crc_table_entry(i),
{
    if i < 32 {
        lemma_crc_table_block_0(i);
    } else if i < 64 {
        lemma_crc_table_block_1(i);
    } else if i < 96 {
        lemma_crc_table_block_2(i);
    } else if i < 128 {
        lemma_crc_table_block_3(i);
    } else if i < 160 {
        lemma_crc_table_block_4(i);
    } else if i < 192 {
        lemma_crc_table_block_5(i);
    } else if i < 224 {
        lemma_crc_table_block_6(i);
    } else {
        lemma_crc_table_block_7(i);
    }
}

/// The checksum after one more byte: the register moves up by eight bits and
/// the table entry for the byte, mixed with the bits that fall out, is folded
/// in.
pub open spec fn crc_update(crc: u32, byte: u8) -> u32 {
    (crc << 8) ^ crc_table_entry(byte ^ ((crc >> 24) as u8))
}

/// The running checksum of `data`, started at `crc`.
pub open spec fn spec_crc(crc: u32, data: Seq<u8>) -> u32
    decreases data.len(),
{
    if data.len() == 0 {
        crc
    } else {
        crc_update(spec_crc(crc, data.drop_last()), data.last())
    }
}

/// The bytes of a page with the four bytes of its checksum field set to
/// `field`.
pub open spec fn spec_with_checksum_field(page: Seq<u8>, field: Seq<u8>) -> Seq<u8> {
    Seq::new(page.len(), |i: int| if 22 <= i < 26 { field[i - 22] } else { page[i] })
}

/// The checksum of a page: the running checksum, started at zero, of its
/// bytes with the checksum field zeroed.
pub open spec fn spec_checksum(page: Seq<u8>) -> u32 {
    spec_crc(0, spec_with_checksum_field(page, seq![0u8, 0u8, 0u8, 0u8]))
}

/// The bytes of a page with its checksum written, little-endian, into the
/// checksum field.
pub open spec fn spec_fill_checksum_field(page: Seq<u8>) -> Seq<u8> {
    spec_with_checksum_field(page, spec_u32_to_le_bytes(spec_checksum(page)))
}

/// The running checksum of two runs of bytes, one after the other, is that
/// of the second run started at the checksum of the first.
pub proof fn lemma_crc_concat(crc: u32, a: Seq<u8>, b: Seq<u8>)
    ensures
        spec_crc(crc, a + b) == spec_crc(spec_crc(crc, a), b),
    decreases b.len(),
{
    if b.len() == 0 {
        assert(a + b =~= a);
    } else {
        lemma_crc_concat(crc, a, b.drop_last());
        assert((a + b).drop_last() =~= a + b.drop_last());
    }
}

impl OggPacket {
    /// The running checksum of `data`, started at `crc`; zero starts a fresh
    /// computation.
    pub fn crc(crc: u32, data: &[u8]) -> (sum: u32)
        ensures
            sum == spec_crc(crc, data@),
    {
        let mut sum: u32 = crc;
        let mut i: usize = 0;
        while i < data.len()
            invariant
                i <= data@.len(),
                sum == spec_crc(crc, data@.take(i as int)),
            decreases data@.len() - i,
        {
            let top: u32 = sum >> 24;
            assert(top < 256) by (bit_vector)
                requires
                    top == sum >> 24,
            ;
            let index: u8 = data[i] ^ (top as u8);
            proof {
                lemma_crc_table(index);
                assert(data@.take(i + 1).drop_last() =~= data@.take(i as int));
            }
            sum = (sum << 8) ^ CRC_TABLE[index as usize];
            i = i + 1;
        }
        proof {
            assert(data@.take(i as int) =~= data@);
        }
        sum
    }

    /// The checksum of a serialized page, computed over a copy of it with
    /// the checksum field zeroed. A buffer shorter than the fixed header has
    /// no checksum.
    pub fn get_checksum(ogg_packet: &[u8]) -> (sum: Result<u32, OggError>)
        ensures
            ogg_packet@.len() < 27 ==> sum == Err::<u32, OggError>(OggError::TruncatedInput),
            ogg_packet@.len() >= 27 ==> sum == Ok::<u32, OggError>(spec_checksum(ogg_packet@)),
    {
        if ogg_packet.len() < HEADER_SIZE {
            Err(OggError::TruncatedInput)
        } else {
            let mut field_cleared = slice_to_vec(ogg_packet);
            field_cleared[22] = 0;
            field_cleared[23] = 0;
            field_cleared[24] = 0;
            field_cleared[25] = 0;
            proof {
                assert(field_cleared@ =~= spec_with_checksum_field(
                    ogg_packet@,
                    seq![0u8, 0u8, 0u8, 0u8],
                ));
            }
            Ok(Self::crc(0, field_cleared.as_slice()))
        }
    }

    /// Computes the checksum of a serialized page and writes it into the
    /// page's checksum field. A buffer shorter than the fixed header is left
    /// as it is.
    pub fn fill_checksum_field(ogg_packet: &mut [u8]) -> (done: Result<(), OggError>)
        ensures
            old(ogg_packet)@.len() < 27 ==> done == Err::<(), OggError>(OggError::TruncatedInput)
                && final(ogg_packet)@ == old(ogg_packet)@,
            old(ogg_packet)@.len() >= 27 ==> done == Ok::<(), OggError>(()) && final(ogg_packet)@
                == spec_fill_checksum_field(old(ogg_packet)@),
    {
        match Self::get_checksum(ogg_packet) {
            Err(e) => Err(e),
            Ok(checksum) => {
                let field = u32_to_le_bytes(checksum);
                ogg_packet[22] = field[0];
                ogg_packet[23] = field[1];
                ogg_packet[24] = field[2];
                ogg_packet[25] = field[3];
                proof {
                    assert(ogg_packet@ =~= spec_fill_checksum_field(old(ogg_packet)@));
                }
                Ok(())
            },
        }
    }
}

} // verus!
