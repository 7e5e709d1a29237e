use unm::wav::{read_wav_info, WavError, WavInfo, WavSampleFormat};

fn wav(code: u16, channels: u16, rate: u32, bits: u16, extra: &[u8], data: &[u8]) -> Vec<u8> {
    let mut b = Vec::new();
    b.extend_from_slice(b"RIFF");
    b.extend_from_slice(&(4 + 24 + extra.len() as u32 + 8 + data.len() as u32).to_le_bytes());
    b.extend_from_slice(b"WAVE");
    b.extend_from_slice(extra);
    b.extend_from_slice(b"fmt ");
    b.extend_from_slice(&16u32.to_le_bytes());
    b.extend_from_slice(&code.to_le_bytes());
    b.extend_from_slice(&channels.to_le_bytes());
    b.extend_from_slice(&rate.to_le_bytes());
    b.extend_from_slice(&(rate * channels as u32 * bits as u32 / 8).to_le_bytes());
    b.extend_from_slice(&(channels * bits / 8).to_le_bytes());
    b.extend_from_slice(&bits.to_le_bytes());
    b.extend_from_slice(b"data");
    b.extend_from_slice(&(data.len() as u32).to_le_bytes());
    b.extend_from_slice(data);
    b
}

#[test]
fn reads_a_pcm16_stereo_header() {
    let b = wav(1, 2, 44100, 16, &[], &[0; 8]);
    let info = read_wav_info(&b).unwrap();
    assert_eq!(
        info,
        WavInfo { format: WavSampleFormat::Pcm16, channels: 2, sample_rate: 44100, data_start: 44, data_len: 8 }
    );
    assert_eq!(info.frames_count(), 2);
}

#[test]
fn skips_other_chunks_with_padding() {
    // a "LIST" chunk of odd size 3 is padded to 4 bytes
    let extra = [b'L', b'I', b'S', b'T', 3, 0, 0, 0, 1, 2, 3, 0];
    let b = wav(3, 1, 48000, 32, &extra, &[0; 12]);
    let info = read_wav_info(&b).unwrap();
    assert_eq!(info.format, WavSampleFormat::Float32);
    assert_eq!(info.channels, 1);
    assert_eq!(info.sample_rate, 48000);
    assert_eq!(info.data_start, 56);
    assert_eq!(info.data_len, 12);
    assert_eq!(info.frames_count(), 3);
}

#[test]
fn cuts_a_truncated_data_chunk() {
    let mut b = wav(1, 1, 8000, 16, &[], &[1, 2, 3, 4, 5, 6]);
    b.truncate(b.len() - 3);
    let info = read_wav_info(&b).unwrap();
    assert_eq!(info.data_len, 3);
    assert_eq!(info.frames_count(), 1);
}

#[test]
fn rejects_what_it_cannot_read() {
    assert_eq!(read_wav_info(b"RIFF"), Err(WavError::NotWave));
    let mut b = wav(1, 1, 8000, 16, &[], &[]);
    b[8] = b'X';
    assert_eq!(read_wav_info(&b), Err(WavError::NotWave));
    assert_eq!(read_wav_info(&wav(1, 1, 8000, 24, &[], &[])), Err(WavError::Unsupported));
    assert_eq!(read_wav_info(&wav(0xFFFE, 2, 8000, 16, &[], &[])), Err(WavError::Unsupported));
    assert_eq!(read_wav_info(&wav(1, 0, 8000, 16, &[], &[])), Err(WavError::Unsupported));
    let b = wav(1, 1, 8000, 16, &[], &[]);
    assert_eq!(read_wav_info(&b[..36]), Err(WavError::NoData));
    assert_eq!(read_wav_info(&b[..20]), Err(WavError::NoFormat));
    let mut only_riff = b[..12].to_vec();
    only_riff.extend_from_slice(b"data");
    only_riff.extend_from_slice(&0u32.to_le_bytes());
    assert_eq!(read_wav_info(&only_riff), Err(WavError::NoFormat));
}
