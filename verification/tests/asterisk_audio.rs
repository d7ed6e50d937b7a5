use tetra_entities::net_asterisk::audio::{
    PCMU_PAYLOAD_TYPE, TETRA_TMD_BITS_PER_BLOCK, TETRA_TMD_PACKED_BYTES, get_packed_bit, join_codec_frames_to_tmd_block,
    linear_to_ulaw, rtp_payload, set_packed_bit, split_tmd_block_to_codec_frames, ulaw_to_linear, PcmuBlocker,
};

#[test]
fn packed_tmd_round_trip_keeps_274_bits() {
    let mut bits = [0u8; TETRA_TMD_BITS_PER_BLOCK];
    for (idx, bit) in bits.iter_mut().enumerate() {
        *bit = (idx % 3 == 0) as u8;
    }

    let frames = split_tmd_block_to_codec_frames(&bits).unwrap();
    let packed = join_codec_frames_to_tmd_block(&frames[0], &frames[1]);
    assert_eq!(packed.len(), TETRA_TMD_PACKED_BYTES);

    let frames_again = split_tmd_block_to_codec_frames(&packed).unwrap();
    assert_eq!(frames, frames_again);
}

#[test]
fn rtp_payload_skips_extension_and_padding() {
    let packet = [
        0b1011_0000,
        PCMU_PAYLOAD_TYPE,
        0,
        1,
        0,
        0,
        0,
        0,
        0,
        0,
        0,
        1,
        0xab,
        0xcd,
        0,
        1,
        0xaa,
        0xbb,
        0xcc,
        0xdd,
        0x11,
        0x22,
        2,
        2,
    ];
    let (pt, payload) = rtp_payload(&packet).unwrap();
    assert_eq!(pt, PCMU_PAYLOAD_TYPE);
    assert_eq!(payload, &[0x11, 0x22]);
}

#[test]
fn rtp_rejects_short_wrong_version_and_bad_padding() {
    assert!(rtp_payload(&[0x80; 11]).is_none());
    let mut v1 = [0u8; 12];
    v1[0] = 0x40;
    assert!(rtp_payload(&v1).is_none());
    let mut pad0 = [0u8; 13];
    pad0[0] = 0xa0;
    assert!(rtp_payload(&pad0).is_none());
    let mut csrc = [0u8; 12];
    csrc[0] = 0x81;
    assert!(rtp_payload(&csrc).is_none());
    let plain = [0x80, 0x88, 0, 0, 0, 0, 0, 0, 0, 0, 0, 0, 7, 8, 9];
    assert_eq!(rtp_payload(&plain), Some((8, &[7u8, 8, 9][..])));
}

#[test]
fn tmd_packed_with_header_byte_and_wrong_sizes() {
    let mut block = vec![0u8; 36];
    block[0] = 0xff; // header byte is skipped
    block[1] = 0x80; // first packed bit
    let frames = split_tmd_block_to_codec_frames(&block).unwrap();
    assert_eq!(frames[0][0], 0x80);
    assert!(frames[0][1..].iter().all(|&b| b == 0));
    assert!(frames[1].iter().all(|&b| b == 0));
    assert!(split_tmd_block_to_codec_frames(&[0u8; 34]).is_none());
    assert!(split_tmd_block_to_codec_frames(&[0u8; 273]).is_none());
}

#[test]
fn tmd_second_frame_starts_at_bit_137() {
    let mut bits = [0u8; 274];
    bits[137] = 1;
    bits[273] = 1;
    let frames = split_tmd_block_to_codec_frames(&bits).unwrap();
    assert!(frames[0].iter().all(|&b| b == 0));
    assert_eq!(frames[1][0], 0x80);
    assert_eq!(frames[1][17], 0x80); // bit 136 of the frame
    let packed = join_codec_frames_to_tmd_block(&frames[0], &frames[1]);
    assert_eq!(packed[17], 0x40); // block bit 137
    assert_eq!(packed[34], 0x40); // block bit 273
}

#[test]
fn packed_bit_accessors() {
    let mut data = [0u8; 2];
    set_packed_bit(&mut data, 9, 3);
    assert_eq!(data, [0, 0x40]);
    assert_eq!(get_packed_bit(&data, 9), 1);
    assert_eq!(get_packed_bit(&data, 8), 0);
    set_packed_bit(&mut data, 0, 2); // low bit 0: no change
    assert_eq!(data, [0, 0x40]);
}

#[test]
fn ulaw_known_values() {
    assert_eq!(ulaw_to_linear(0xff), 0);
    assert_eq!(ulaw_to_linear(0x7f), 0);
    assert_eq!(ulaw_to_linear(0x00), -32124);
    assert_eq!(ulaw_to_linear(0x80), 32124);
    assert_eq!(linear_to_ulaw(0), 0xff);
    assert_eq!(linear_to_ulaw(32767), 0x80);
    assert_eq!(linear_to_ulaw(-32768), 0x00);
    assert_eq!(linear_to_ulaw(1000), 0xce);
}

#[test]
fn ulaw_code_round_trip_except_negative_zero() {
    for code in 0u8..=255 {
        let back = linear_to_ulaw(ulaw_to_linear(code));
        if code == 0x7f {
            assert_eq!(back, 0xff);
        } else {
            assert_eq!(back, code, "code {code:#x}");
        }
    }
}

#[test]
fn downlink_audio_is_cut_into_blocks_of_two_frames() {
    let mut b = PcmuBlocker::new();
    let payload: Vec<u8> = (0..500u32).map(|i| (i % 256) as u8).collect();
    let blocks = b.push_pcmu(&payload);
    assert_eq!(blocks.len(), 1);
    assert_eq!(blocks[0].0.len(), 240);
    assert_eq!(blocks[0].1.len(), 240);
    assert_eq!(blocks[0].0[5], ulaw_to_linear(5));
    assert_eq!(blocks[0].1[0], ulaw_to_linear(240));
    assert_eq!(b.pending_len(), 20);
    // 20 waiting + 460 more make exactly one block; nothing waits afterwards.
    let more = vec![0xFFu8; 460];
    let blocks = b.push_pcmu(&more);
    assert_eq!(blocks.len(), 1);
    assert_eq!(blocks[0].0[0], ulaw_to_linear((480 % 256) as u8));
    assert_eq!(blocks[0].1[239], ulaw_to_linear(0xFF));
    assert_eq!(b.pending_len(), 0);
    assert!(b.push_pcmu(&[1, 2, 3]).is_empty());
    assert_eq!(b.pending_len(), 3);
}

#[test]
fn ulaw_decode_encode_round_trip() {
    for c in 0..=255u8 {
        let back = linear_to_ulaw(ulaw_to_linear(c));
        if c == 0x7f {
            assert_eq!(back, 0xff);
        } else {
            assert_eq!(back, c);
        }
    }
}
