use speaches_companion::audio::{
    capture_readiness, capture_remaining_nanos, captured_audio, file_capture_args,
    mp3_encoder_args, pcm_bytes_for_duration, pcm_bytes_wide, pcm_duration, pcm_wav, raw_capture_args,
    recording_is_usable, sample_count, AudioError, CaptureWait, StreamingPcmBuffer,
    StreamingPcmSession, SAMPLE_RATE, STT_SAMPLE_RATE,
};
use speaches_companion::clock::Duration;

fn buffer_of(idle_retain: Duration, pcm: &[u8]) -> StreamingPcmBuffer {
    let mut buffer = StreamingPcmBuffer::new(4, idle_retain);
    buffer.append(pcm);
    buffer
}

#[test]
fn write_pcm_wav_creates_basic_mono_16bit_wav() {
    let bytes = pcm_wav(&[1, 2, 3, 4], 16_000).unwrap();

    assert_eq!(&bytes[0..4], b"RIFF");
    assert_eq!(&bytes[8..12], b"WAVE");
    assert_eq!(&bytes[12..16], b"fmt ");
    assert_eq!(u16::from_le_bytes([bytes[20], bytes[21]]), 1);
    assert_eq!(u16::from_le_bytes([bytes[22], bytes[23]]), 1);
    assert_eq!(
        u32::from_le_bytes([bytes[24], bytes[25], bytes[26], bytes[27]]),
        16_000
    );
    assert_eq!(&bytes[36..40], b"data");
    assert_eq!(
        u32::from_le_bytes([bytes[40], bytes[41], bytes[42], bytes[43]]),
        4
    );
    assert_eq!(&bytes[44..], &[1, 2, 3, 4]);
    assert_eq!(
        u32::from_le_bytes([bytes[28], bytes[29], bytes[30], bytes[31]]),
        32_000
    );
    assert_eq!(u16::from_le_bytes([bytes[32], bytes[33]]), 2);
    assert_eq!(u16::from_le_bytes([bytes[34], bytes[35]]), 16);
    assert_eq!(
        u32::from_le_bytes([bytes[4], bytes[5], bytes[6], bytes[7]]),
        40
    );
}

#[test]
fn wait_for_streaming_pcm_returns_after_audio_arrives() {
    let mut buffer = StreamingPcmBuffer::new(4, Duration::from_secs(1));
    assert_eq!(
        capture_readiness(&buffer, Duration::zero()),
        CaptureWait::PollAfter(10)
    );

    buffer.append(&[1, 2]);

    assert_eq!(
        capture_readiness(&buffer, Duration::from_secs(1)),
        CaptureWait::Ready
    );
}

#[test]
fn streaming_pcm_session_keeps_preroll_and_new_audio() {
    let mut buffer = buffer_of(Duration::from_secs(1), &[1, 2, 3, 4]);
    let session =
        StreamingPcmSession::start(&mut buffer, 4, Duration::from_millis(250)).unwrap();

    buffer.append(&[5, 6]);

    assert_eq!(session.snapshot(&buffer), vec![3, 4, 5, 6]);
    assert_eq!(session.retained_preroll(), &[3, 4]);
    assert_eq!(session.retained_preroll_bytes(), 2);
    assert_eq!(session.available_at_start_bytes(), 4);
}

#[test]
fn streaming_pcm_session_can_limit_preroll_snapshot() {
    let mut buffer = buffer_of(Duration::from_secs(1), &[1, 2, 3, 4, 5, 6, 7, 8]);
    let session = StreamingPcmSession::start(&mut buffer, 4, Duration::from_secs(1)).unwrap();

    buffer.append(&[9, 10]);

    assert_eq!(
        session.snapshot_with_preroll_limit(&buffer, 4, Duration::from_millis(250)),
        vec![7, 8, 9, 10]
    );
}

#[test]
fn streaming_pcm_buffer_trims_only_while_idle() {
    let mut buffer = buffer_of(Duration::from_millis(250), &[1, 2, 3, 4]);

    assert_eq!(buffer.snapshot().pcm, vec![3, 4]);

    let mut session =
        StreamingPcmSession::start(&mut buffer, 4, Duration::from_millis(250)).unwrap();
    buffer.append(&[5, 6, 7, 8]);

    assert_eq!(session.snapshot(&buffer), vec![3, 4, 5, 6, 7, 8]);
    session.finish(&mut buffer);
    assert_eq!(buffer.snapshot().pcm, vec![7, 8]);
    assert_eq!(buffer.snapshot().bytes_seen, 8);
}

#[test]
fn streaming_pcm_session_rejects_overlapping_recordings() {
    let mut buffer = buffer_of(Duration::from_secs(1), &[1, 2, 3, 4]);
    let mut session =
        StreamingPcmSession::start(&mut buffer, 4, Duration::from_millis(250)).unwrap();

    let error = match StreamingPcmSession::start(&mut buffer, 4, Duration::from_millis(250)) {
        Ok(_) => panic!("overlapping recording should be rejected"),
        Err(error) => error,
    };

    assert!(error.message().contains("recording is already active"));
    session.finish(&mut buffer);
    let mut next_session =
        StreamingPcmSession::start(&mut buffer, 4, Duration::from_millis(250)).unwrap();
    next_session.finish(&mut buffer);
}

#[test]
fn wait_for_streaming_pcm_accepts_zero_idle_retention() {
    let mut buffer = StreamingPcmBuffer::new(4, Duration::zero());
    buffer.append(&[1, 2]);

    assert_eq!(
        capture_readiness(&buffer, Duration::from_secs(1)),
        CaptureWait::Ready
    );
    assert!(buffer.snapshot().pcm.is_empty());
}

#[test]
fn captures_that_stay_silent_time_out() {
    let buffer = StreamingPcmBuffer::new(4, Duration::from_secs(1));
    assert_eq!(
        capture_readiness(&buffer, Duration::from_millis(1_999)),
        CaptureWait::PollAfter(10)
    );
    assert_eq!(
        capture_readiness(&buffer, Duration::from_secs(2)),
        CaptureWait::TimedOut
    );
    assert_eq!(
        AudioError::CaptureTimedOut.message(),
        "timed out waiting for pw-record to produce audio"
    );
}

#[test]
fn finishing_twice_ends_one_session_only() {
    let mut buffer = buffer_of(Duration::from_secs(1), &[1, 2]);
    let mut first = StreamingPcmSession::start(&mut buffer, 4, Duration::zero()).unwrap();
    first.finish(&mut buffer);
    let _second = StreamingPcmSession::start(&mut buffer, 4, Duration::zero()).unwrap();
    first.finish(&mut buffer);
    assert_eq!(
        StreamingPcmSession::start(&mut buffer, 4, Duration::zero()).err(),
        Some(AudioError::AlreadyActive)
    );
}

#[test]
fn spans_and_bytes_of_sound() {
    assert_eq!(pcm_bytes_for_duration(SAMPLE_RATE, Duration::from_millis(500)), 24_000);
    assert_eq!(pcm_bytes_for_duration(4, Duration::from_millis(251)), 4);
    assert_eq!(pcm_bytes_for_duration(4, Duration::zero()), 0);
    assert_eq!(pcm_bytes_for_duration(24_000, Duration::from_millis(1_100)), 52_802);
    assert_eq!(pcm_bytes_for_duration(100, Duration::from_millis(70)), 16);
    assert_eq!(
        pcm_duration(STT_SAMPLE_RATE, 32_000).as_nanos(),
        1_000_000_000
    );
    assert_eq!(pcm_duration(3, 2).as_nanos(), 333_333_333);
}

#[test]
fn recordings_must_hold_sound() {
    assert_eq!(captured_audio(vec![1, 2]), Ok(vec![1, 2]));
    assert_eq!(captured_audio(vec![]), Err(AudioError::NoAudio));
    assert_eq!(
        AudioError::NoAudio.message(),
        "recording stopped before any audio was captured"
    );
    assert!(recording_is_usable(true, None));
    assert!(recording_is_usable(false, Some(45)));
    assert!(!recording_is_usable(false, Some(44)));
    assert!(!recording_is_usable(false, None));
}

#[test]
fn recorder_arguments() {
    assert_eq!(
        raw_capture_args(24_000).join(" "),
        "--raw --rate 24000 --channels 1 --format s16 -"
    );
    assert_eq!(
        file_capture_args(16_000, 48_000, "/tmp/a.wav").join(" "),
        "--rate 16000 --channels 1 --format s16 --sample-count 48000 /tmp/a.wav"
    );
    assert_eq!(
        mp3_encoder_args(16_000, "/tmp/a.mp3").join(" "),
        "-hide_banner -loglevel error -f s16le -ar 16000 -ac 1 -i pipe:0 -codec:a libmp3lame \
         -q:a 2 -y /tmp/a.mp3"
    );
    assert_eq!(sample_count(Duration::from_millis(1_500), 16_000), 24_000);
    assert_eq!(sample_count(Duration::zero(), 16_000), 1);
    assert_eq!(sample_count(Duration::from_secs(u64::MAX), 16_000), u64::MAX);
}

#[test]
fn captures_end_when_their_time_is_over() {
    let limit = Duration::from_secs(2);
    assert_eq!(
        capture_remaining_nanos(Duration::from_millis(500), limit),
        Some(1_500_000_000)
    );
    assert_eq!(capture_remaining_nanos(limit, limit), None);
}

#[test]
fn samples_are_counted_in_double_precision() {
    let rates = [0, 1, 4, 100, 8_000, 16_000, 24_000, 44_100, 48_000, 4_294_967_295];
    let mut spans: Vec<u64> = (0..3_000).map(|millis| millis * 1_000_000).collect();
    spans.extend([1, 2, 3, 999_999_999, 1_000_000_001, 123_456_789_012_345_678]);
    for shift in 0..64 {
        spans.extend([1 << shift, (1 << shift) - 1, u64::MAX >> shift, u64::MAX << shift]);
    }
    for rate in rates {
        for nanos in &spans {
            let samples =
                std::time::Duration::from_nanos(*nanos).as_secs_f64() * f64::from(rate);
            assert_eq!(
                pcm_bytes_wide(rate, Duration::from_nanos(*nanos)),
                samples.ceil() as u128 * 2,
                "{rate} {nanos}"
            );
        }
    }
    for secs in [1 << 43, (1 << 44) + 1, (1 << 53) + 1, (1 << 60) - 1, u64::MAX] {
        let samples = std::time::Duration::from_secs(secs).as_secs_f64() * 44_100.0;
        assert_eq!(
            pcm_bytes_wide(44_100, Duration::from_secs(secs)),
            samples.ceil() as u128 * 2
        );
    }
    for millis in [(1 << 54) + 7, (1 << 55) + 13, (1 << 60) + 501, u64::MAX] {
        let samples = std::time::Duration::from_millis(millis).as_secs_f64() * 44_100.0;
        assert_eq!(
            pcm_bytes_wide(44_100, Duration::from_millis(millis)),
            samples.ceil() as u128 * 2
        );
    }
}
