use speaches_companion::audio::{pcm_duration, AudioError};
use speaches_companion::clock::Duration;
use speaches_companion::double::Double;
use speaches_companion::dictation::{
    default_recording_dir, recording_file_name, PwRecordRecorder, SpeachesTranscriber,
};
use speaches_companion::speech::{
    adaptive_speech_threshold, adaptive_speech_threshold_with, pcm_rms_s16le, pcm_s16le_samples,
    rms_frames, RmsFrame, SpeechActivityDetector, DEFAULT_MAX_SPEECH_RMS_FLOOR,
    DEFAULT_NOISE_FLOOR_MULTIPLIER, DEFAULT_SPEECH_RMS_FLOOR,
};
use speaches_companion::stt::ResponseFormat;
use speaches_companion::transcriber::{
    audio_file_name, dictation_options, recording_file_name as kept_recording_file_name,
    transcript_file_name, FinalHttpTranscriber, FinalRequest, RealtimeTranscriber,
};
use speaches_companion::trimming::{
    build_final_transcription_audio, pcm_with_leading_silence, trim_pcm_to_speech,
};

fn double(value: f64) -> Double {
    Double {
        bits: value.to_bits(),
    }
}

fn float(value: Double) -> f64 {
    f64::from_bits(value.bits)
}

fn pcm_for_duration(sample_rate: u32, duration: Duration, amplitude: i16) -> Vec<u8> {
    let samples = sample_rate as usize * duration.as_millis() as usize / 1_000;
    let mut pcm = Vec::with_capacity(samples * 2);
    for _ in 0..samples {
        pcm.extend_from_slice(&amplitude.to_le_bytes());
    }
    pcm
}

#[test]
fn adaptive_threshold_uses_floor_without_noise_sample() {
    assert_eq!(float(SpeechActivityDetector::new(16_000).threshold()), 700.0);
}

#[test]
fn adaptive_threshold_rises_with_noise_floor() {
    let pcm = pcm_for_duration(1_000, Duration::from_secs(1), 400);
    let detector = SpeechActivityDetector::with_initial_noise(1_000, &pcm);

    assert_eq!(float(detector.threshold()), 1_500.0);
    assert!(!detector.has_speech(&pcm));
    assert!(detector.has_speech(&pcm_for_duration(1_000, Duration::from_millis(20), 2_000)));
}

#[test]
fn speech_trimming_removes_leading_and_trailing_silence() {
    let sample_rate = 1_000;
    let pcm = [
        pcm_for_duration(sample_rate, Duration::from_secs(1), 0),
        pcm_for_duration(sample_rate, Duration::from_millis(500), 2_000),
        pcm_for_duration(sample_rate, Duration::from_secs(1), 0),
    ]
    .concat();

    let trim = trim_pcm_to_speech(sample_rate, &pcm);

    assert_eq!(trim.leading_trim, Duration::from_millis(500));
    assert_eq!(trim.trailing_trim, Duration::from_millis(700));
    assert_eq!(
        pcm_duration(sample_rate, trim.pcm.len()),
        Duration::from_millis(1_300)
    );
}

#[test]
fn speech_trimming_rejects_noise_when_no_speech_is_detected() {
    let sample_rate = 1_000;
    let pcm = pcm_for_duration(sample_rate, Duration::from_millis(400), 0);

    let trim = trim_pcm_to_speech(sample_rate, &pcm);

    assert!(trim.pcm.is_empty());
    assert_eq!(trim.trailing_silence, Duration::from_millis(400));
}

#[test]
fn final_transcription_audio_rejects_noise_when_no_speech_is_detected() {
    let sample_rate = 1_000;
    let pcm = pcm_for_duration(sample_rate, Duration::from_millis(400), 0);

    let audio = build_final_transcription_audio(sample_rate, &pcm);

    assert!(audio.pcm.is_empty());
    assert_eq!(audio.audio_duration, Duration::zero());
}

#[test]
fn speech_trimming_rejects_too_short_burst() {
    let sample_rate = 1_000;
    let pcm = [
        pcm_for_duration(sample_rate, Duration::from_millis(300), 0),
        pcm_for_duration(sample_rate, Duration::from_millis(40), 2_000),
        pcm_for_duration(sample_rate, Duration::from_millis(300), 0),
    ]
    .concat();

    let trim = trim_pcm_to_speech(sample_rate, &pcm);

    assert!(trim.pcm.is_empty());
    assert_eq!(trim.trailing_silence, Duration::from_millis(300));
}

#[test]
fn transcript_snapshot_writes_text_file() {
    let name = transcript_file_name("final", 42, 7);

    assert_eq!(name, "speaches-companion-final-42-7.txt");
}

#[test]
fn recording_snapshot_names_use_mp3_extension() {
    let name = kept_recording_file_name("realtime", 42, 7);

    assert!(name.starts_with("speaches-companion-realtime-"));
    assert!(name.ends_with(".mp3"));
    assert_eq!(
        audio_file_name("warmup", 42, 8),
        "speaches-companion-warmup-42-8.wav"
    );
}

#[test]
fn leading_silence_prepends_zeroed_pcm_samples() {
    assert_eq!(
        pcm_with_leading_silence(4, Duration::from_millis(250), &[1, 2, 3, 4]),
        vec![0, 0, 1, 2, 3, 4]
    );
    assert_eq!(
        pcm_with_leading_silence(4, Duration::zero(), &[1, 2]),
        vec![1, 2]
    );
}

#[test]
fn samples_are_little_endian() {
    assert_eq!(
        pcm_s16le_samples(&[1, 0, 0xff, 0xff, 0, 0x80, 9]),
        vec![1, -1, i16::MIN]
    );
}

#[test]
fn loudness_is_the_root_of_the_mean_square() {
    assert_eq!(float(pcm_rms_s16le(&[])), 0.0);
    assert_eq!(float(pcm_rms_s16le(&[7])), 0.0);
    let pcm: Vec<u8> = [3i16, -4, 0, 0]
        .iter()
        .flat_map(|sample| sample.to_le_bytes())
        .collect();
    let rms = float(pcm_rms_s16le(&pcm));
    assert_eq!(rms, 2.5);
    let flat = pcm_for_duration(1_000, Duration::from_millis(20), 1_234);
    assert_eq!(float(pcm_rms_s16le(&flat)), 1_234.0);
}

#[test]
fn frames_cover_the_sound() {
    let pcm = pcm_for_duration(1_000, Duration::from_millis(50), 100);
    let frames = rms_frames(1_000, &pcm, Duration::from_millis(20));
    assert_eq!(frames.len(), 3);
    assert_eq!((frames[0].start, frames[0].end), (0, 40));
    assert_eq!((frames[2].start, frames[2].end), (80, 100));
    assert!(frames.iter().all(|frame| frame.rms == double(100.0)));
    assert_eq!(
        adaptive_speech_threshold(1_000, &frames),
        double(700.0)
    );
}

#[test]
fn final_requests_hold_the_speech_behind_silence() {
    let options = dictation_options("model".to_string(), None, true);
    assert_eq!(options.response_format, ResponseFormat::Text);
    assert!(options.without_timestamps);
    let transcriber = FinalHttpTranscriber::new("http://localhost".to_string(), options)
        .with_leading_silence(Duration::from_millis(100))
        .with_preroll(Duration::from_millis(10))
        .with_transcript_dir(Some("/tmp/t".to_string()))
        .with_record_dir(Some("/tmp/r".to_string()));
    assert_eq!(transcriber.sample_rate, 16_000);
    assert_eq!(transcriber.preroll, Duration::from_millis(10));
    assert_eq!(transcriber.transcript_dir.as_deref(), Some("/tmp/t"));
    assert_eq!(transcriber.record_dir.as_deref(), Some("/tmp/r"));

    let speech = pcm_for_duration(16_000, Duration::from_millis(300), 2_000);
    match transcriber.final_request(&speech) {
        Ok(FinalRequest::Transcribe { audio, wav }) => {
            assert_eq!(audio.pcm, speech);
            assert_eq!(audio.audio_duration, Duration::from_millis(300));
            assert_eq!(wav.len(), 44 + 3_200 + speech.len());
            assert!(wav[44..44 + 3_200].iter().all(|byte| *byte == 0));
            assert_eq!(&wav[44 + 3_200..], &speech[..]);
        }
        _ => panic!("speech is to be transcribed"),
    }
    let noise = pcm_for_duration(16_000, Duration::from_millis(300), 10);
    assert!(matches!(
        transcriber.final_request(&noise),
        Ok(FinalRequest::NoSpeech(_))
    ));
    assert_eq!(
        transcriber.final_request(&[]).err(),
        Some(AudioError::NoAudio)
    );
    let endless = transcriber.with_leading_silence(Duration::from_secs(u64::MAX));
    assert_eq!(
        endless.final_request(&speech).err(),
        Some(AudioError::TooLarge)
    );
    assert_eq!(
        AudioError::TooLarge.message(),
        "recording is too large for WAV"
    );
}

#[test]
fn warmups_send_half_a_second_of_silence() {
    let options = dictation_options("model".to_string(), Some("de".to_string()), true);
    let transcriber = FinalHttpTranscriber::new("http://localhost".to_string(), options);
    let wav = transcriber.warmup_wav().unwrap();
    assert_eq!(wav.len(), 44 + 16_000);
    assert!(wav[44..].iter().all(|byte| *byte == 0));
    let options = transcriber.warmup_options();
    assert!(!options.stream);
    assert_eq!(options.model, "model");
    assert_eq!(options.language.as_deref(), Some("de"));
    assert_eq!(transcriber.leading_silence, Duration::from_millis(250));
    assert_eq!(transcriber.preroll, Duration::from_millis(750));
}

#[test]
fn realtime_transcribers_keep_their_options() {
    let transcriber = RealtimeTranscriber::new("http://a".to_string(), "m".to_string(), None);
    assert_eq!(transcriber.preroll, Duration::from_millis(750));
    assert_eq!(transcriber.sample_rate, 24_000);
    assert!(transcriber.final_pass);
    let transcriber = transcriber
        .with_preroll(Duration::zero())
        .with_final_pass(false)
        .with_record_dir(Some("/tmp/r".to_string()));
    assert_eq!(transcriber.preroll, Duration::zero());
    assert!(!transcriber.final_pass);
    assert_eq!(transcriber.record_dir.as_deref(), Some("/tmp/r"));
    assert_eq!(transcriber.base_url, "http://a");
}

#[test]
fn recordings_are_named_by_process_and_time() {
    assert_eq!(
        recording_file_name(42, 1_700_000_000_123),
        "speaches-companion-42-1700000000123.wav"
    );
    let recorder = PwRecordRecorder::new("/tmp/rec".to_string());
    assert_eq!(recorder.sample_rate, 16_000);
    assert_eq!(
        recorder.with_sample_rate(8_000).output_path(1, 2),
        "/tmp/rec/speaches-companion-1-2.wav"
    );
    assert_eq!(
        default_recording_dir(Some("/run/user/1000"), "/tmp"),
        "/run/user/1000/speaches-companion-recordings"
    );
    assert_eq!(
        default_recording_dir(None, "/tmp"),
        "/tmp/speaches-companion-recordings"
    );
    let transcriber = SpeachesTranscriber::new(
        "http://a".to_string(),
        dictation_options("m".to_string(), None, false),
    );
    assert_eq!(transcriber.base_url, "http://a");
}

#[test]
fn noise_is_multiplied_by_parts_of_a_whole() {
    let pcm = pcm_for_duration(1_000, Duration::from_secs(1), 400);
    let frames = rms_frames(1_000, &pcm, Duration::from_millis(20));
    let threshold = |multiplier: f64| {
        adaptive_speech_threshold_with(
            1_000,
            &frames,
            Duration::from_millis(500),
            double(100.0),
            double(10_000.0),
            double(multiplier),
        )
    };

    assert_eq!(threshold(2.5), double(1_000.0));
    assert_eq!(threshold(0.125), double(100.0));
    assert_eq!(threshold(30.0), double(10_000.0));
    assert_eq!(threshold(0.7), double(400.0 * 0.7));
    assert_eq!(threshold(f64::INFINITY), double(10_000.0));
    assert_eq!(threshold(1e-320), double(100.0));
}

/// Samples that follow no pattern.
fn noise(seed: u64, count: usize, shift: u32) -> Vec<u8> {
    let mut state = seed;
    let mut pcm = Vec::new();
    for _ in 0..count {
        state = state
            .wrapping_mul(6_364_136_223_846_793_005)
            .wrapping_add(1_442_695_040_888_963_407);
        let sample = ((state >> 48) as u16 as i16) >> shift;
        pcm.extend_from_slice(&sample.to_le_bytes());
    }
    pcm
}

fn rms_of(pcm: &[u8]) -> f64 {
    let samples = pcm_s16le_samples(pcm);
    let mut sum = 0.0;
    for sample in &samples {
        sum += f64::from(*sample) * f64::from(*sample);
    }
    (sum / samples.len() as f64).sqrt()
}

#[test]
fn loudness_is_computed_in_double_precision() {
    for seed in 1..200 {
        for shift in [0, 3, 9, 14] {
            let pcm = noise(seed, 1 + (seed as usize * 37) % 500, shift);
            assert_eq!(float(pcm_rms_s16le(&pcm)), rms_of(&pcm));
        }
    }
    let mut pcm = vec![0; 20_000];
    pcm[0] = 1;
    assert_eq!(float(pcm_rms_s16le(&pcm)), rms_of(&pcm));
}

#[test]
fn thresholds_are_computed_in_double_precision() {
    for seed in 1..100 {
        for shift in [4, 5, 6, 7] {
            let pcm = noise(seed, 1_000 + seed as usize, shift);
            let frames = rms_frames(1_000, &pcm, Duration::from_millis(20));
            let quiet = frames.iter().take_while(|frame| frame.start < 2_000);
            let loudness: Vec<f64> = quiet.map(|frame| float(frame.rms)).collect();
            let mean = loudness.iter().sum::<f64>() / loudness.len() as f64;
            assert_eq!(
                float(adaptive_speech_threshold(1_000, &frames)),
                700f64.max(mean * 4.0).min(1_500.0)
            );
        }
    }
    assert_eq!(f64::from_bits(DEFAULT_SPEECH_RMS_FLOOR), 700.0);
    assert_eq!(f64::from_bits(DEFAULT_MAX_SPEECH_RMS_FLOOR), 1_500.0);
    assert_eq!(f64::from_bits(DEFAULT_NOISE_FLOOR_MULTIPLIER), 4.0);
}

#[test]
fn doubles_are_computed_with_as_the_machine_does() {
    let mut values = vec![
        0.0,
        5e-324,
        1e-310,
        f64::MIN_POSITIVE,
        1e-200,
        0.1,
        0.5,
        1.0,
        1.5,
        3.0,
        1e10,
        9_007_199_254_740_993.0,
        1e100,
        1e300,
        f64::MAX,
        f64::INFINITY,
    ];
    let mut state = 1u64;
    for _ in 0..60 {
        state = state
            .wrapping_mul(6_364_136_223_846_793_005)
            .wrapping_add(1_442_695_040_888_963_407);
        values.push(f64::from_bits(state % 0x7ff0_0000_0000_0000));
        values.push(1.0 + f64::from_bits(0x3fe0_0000_0000_0000 + (state >> 12)));
    }
    for a in &values {
        assert_eq!(float(double(*a).root()), a.sqrt());
        for count in [1u32, 2, 3, 7, 10, 50, 1_000_003] {
            assert_eq!(
                float(double(*a).over(u128::from(count))),
                a / f64::from(count)
            );
        }
        for b in &values {
            assert_eq!(float(double(*a).plus(double(*b))), a + b);
            assert_eq!(double(*a).is_below(double(*b)), a < b);
            match double(*a).times(double(*b)) {
                Some(product) => assert_eq!(float(product), a * b),
                None => assert!((a * b).is_nan()),
            }
        }
    }
    for whole in [0u64, 1, 700, 1 << 53, (1 << 53) + 1, (1 << 60) + 129, u64::MAX] {
        assert_eq!(float(Double::from_whole(u128::from(whole))), whole as f64);
    }
}

#[test]
fn frames_without_a_threshold_keep_the_floor() {
    let frames: Vec<RmsFrame> = Vec::new();
    assert_eq!(adaptive_speech_threshold(16_000, &frames), double(700.0));
}
