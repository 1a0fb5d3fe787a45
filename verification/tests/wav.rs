use locaryn_plugin_voice_tts::wav::{wav_data_and_rate, wav_sample_size_and_rate};

fn le(v: u32) -> [u8; 4] {
    v.to_le_bytes()
}

fn canonical(byte_rate: u32, data_len: u32) -> Vec<u8> {
    let mut w = Vec::new();
    w.extend_from_slice(b"RIFF");
    w.extend_from_slice(&le(36 + data_len));
    w.extend_from_slice(b"WAVEfmt ");
    w.extend_from_slice(&le(16));
    w.extend_from_slice(&1u16.to_le_bytes());
    w.extend_from_slice(&1u16.to_le_bytes());
    w.extend_from_slice(&le(byte_rate / 2));
    w.extend_from_slice(&le(byte_rate));
    w.extend_from_slice(&2u16.to_le_bytes());
    w.extend_from_slice(&16u16.to_le_bytes());
    w.extend_from_slice(b"data");
    w.extend_from_slice(&le(data_len));
    w.extend(vec![0u8; data_len as usize]);
    w
}

#[test]
fn a_canonical_header_gives_size_and_rate_both_ways() {
    let w = canonical(48_000, 96_000);
    assert_eq!(wav_data_and_rate(&w), Some((96_000, 48_000)));
    assert_eq!(wav_sample_size_and_rate(&w), Some((96_000, 48_000)));
    let d = 96_000f32 / 48_000f32;
    assert!((d - 2.0).abs() < 0.01);
}

#[test]
fn la_duree_se_lit_dans_l_en_tete_du_wav() {
    // 8000 bytes a second, 16000 bytes of data = 2 s.
    let mut w = Vec::new();
    w.extend_from_slice(b"RIFF");
    w.extend_from_slice(&0u32.to_le_bytes());
    w.extend_from_slice(b"WAVEfmt ");
    w.extend_from_slice(&16u32.to_le_bytes());
    w.extend_from_slice(&1u16.to_le_bytes()); // PCM
    w.extend_from_slice(&1u16.to_le_bytes()); // mono
    w.extend_from_slice(&8000u32.to_le_bytes()); // rate
    w.extend_from_slice(&8000u32.to_le_bytes()); // bytes a second
    w.extend_from_slice(&1u16.to_le_bytes());
    w.extend_from_slice(&8u16.to_le_bytes());
    w.extend_from_slice(b"data");
    w.extend_from_slice(&16000u32.to_le_bytes());
    w.extend_from_slice(&vec![0u8; 16000]);

    let (size, rate) = wav_data_and_rate(&w).expect("durée lisible");
    let d = size as f32 / rate as f32;
    assert!((d - 2.0).abs() < 0.01, "durée = {d}");
}

#[test]
fn wav_duration_is_read_from_the_header() {
    // 24 kHz, mono, 16-bit => byte rate 48000; 96000 bytes = 2.0 s.
    let data_len: u32 = 96_000;
    let mut w: Vec<u8> = Vec::new();
    w.extend(b"RIFF");
    w.extend((36 + data_len).to_le_bytes());
    w.extend(b"WAVEfmt ");
    w.extend(16u32.to_le_bytes());
    w.extend(1u16.to_le_bytes()); // PCM
    w.extend(1u16.to_le_bytes()); // mono
    w.extend(24_000u32.to_le_bytes());
    w.extend(48_000u32.to_le_bytes()); // byte rate
    w.extend(2u16.to_le_bytes());
    w.extend(16u16.to_le_bytes());
    w.extend(b"data");
    w.extend(data_len.to_le_bytes());
    w.extend(vec![0u8; data_len as usize]);

    let (size, rate) = wav_sample_size_and_rate(&w).expect("duration readable");
    assert!((size as f32 / rate as f32 - 2.0).abs() < 0.01);
}

#[test]
fn chunks_before_data_are_skipped_with_their_padding() {
    let mut w = Vec::new();
    w.extend_from_slice(b"RIFF");
    w.extend_from_slice(&le(0));
    w.extend_from_slice(b"WAVEfmt ");
    w.extend_from_slice(&le(16));
    w.extend_from_slice(&[1, 0, 1, 0]);
    w.extend_from_slice(&le(4000));
    w.extend_from_slice(&le(8000));
    w.extend_from_slice(&[2, 0, 16, 0]);
    w.extend_from_slice(b"LIST");
    w.extend_from_slice(&le(3));
    w.extend_from_slice(&[1, 2, 3, 0]); // odd payload and its pad byte
    w.extend_from_slice(b"data");
    w.extend_from_slice(&le(800));
    w.extend(vec![0u8; 800]);
    assert_eq!(wav_data_and_rate(&w), Some((800, 8000)));
    assert_eq!(wav_sample_size_and_rate(&w), Some((800, 8000)));
}

#[test]
fn headers_that_are_not_wav_give_nothing() {
    assert_eq!(wav_data_and_rate(b"RIFF....WAVEfake"), None);
    assert_eq!(wav_sample_size_and_rate(b"RIFF....WAVEfake"), None);
    let mut w = canonical(8000, 100);
    w[8] = b'X';
    assert_eq!(wav_data_and_rate(&w), None);
    assert_eq!(wav_sample_size_and_rate(&w), None);
    assert_eq!(wav_data_and_rate(&[]), None);
}

#[test]
fn a_zero_byte_rate_gives_nothing() {
    let w = canonical(0, 100);
    assert_eq!(wav_data_and_rate(&w), None);
    assert_eq!(wav_sample_size_and_rate(&w), None);
}

#[test]
fn the_two_readings_differ_on_where_the_rate_is_read() {
    // A data chunk first: the header reading takes the rate at offset 28
    // (inside the data), the fmt reading finds no rate before the data.
    let mut w = Vec::new();
    w.extend_from_slice(b"RIFFxxxxWAVE");
    w.extend_from_slice(b"data");
    w.extend_from_slice(&le(24));
    w.extend_from_slice(&[0u8; 8]);
    w.extend_from_slice(&le(1000)); // offset 28
    w.extend_from_slice(&[0u8; 12]);
    assert_eq!(w.len(), 44);
    assert_eq!(wav_data_and_rate(&w), Some((24, 1000)));
    assert_eq!(wav_sample_size_and_rate(&w), None);
}

#[test]
fn a_chunk_running_past_the_end_stops_the_walk() {
    let mut w = canonical(8000, 0);
    // make the fmt chunk claim to be huge
    w[16..20].copy_from_slice(&le(u32::MAX));
    assert_eq!(wav_data_and_rate(&w), None);
    assert_eq!(wav_sample_size_and_rate(&w), None);
}
