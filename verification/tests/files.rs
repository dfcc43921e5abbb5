use tts_relay::files::{
    is_normalized, is_temp_wav_name, is_temp_wav_name_any_case, stale_cutoff,
    synthesis_adjustments, temp_file_name, DEFAULT_MAX_AGE_MINUTES,
};

#[test]
fn temp_files_are_named_after_their_time() {
    assert_eq!(temp_file_name("20240101_120000", "wav"), "aidc_tts_20240101_120000_openai.wav");
    assert_eq!(temp_file_name("", "mp3"), "aidc_tts__openai.mp3");
}

#[test]
fn only_our_wav_files_may_be_deleted() {
    assert!(is_temp_wav_name("aidc_tts_20240101_120000_openai.wav"));
    assert!(is_temp_wav_name("aidc_tts_.wav"));
    assert!(!is_temp_wav_name("aidc_tts_x.WAV"));
    assert!(!is_temp_wav_name("aidc_tts_x.mp3"));
    assert!(!is_temp_wav_name("aidc_tts_x.wav.bak"));
    assert!(!is_temp_wav_name("other_x.wav"));
    assert!(!is_temp_wav_name("xaidc_tts_x.wav"));
    assert!(!is_temp_wav_name("aidc_tts.wav"));
    assert!(!is_temp_wav_name(".wav"));
    assert!(!is_temp_wav_name(""));
}

#[test]
fn stale_sweep_accepts_any_case_of_the_extension() {
    assert!(is_temp_wav_name_any_case("aidc_tts_x.wav"));
    assert!(is_temp_wav_name_any_case("aidc_tts_x.WAV"));
    assert!(is_temp_wav_name_any_case("aidc_tts_x.Wav"));
    assert!(!is_temp_wav_name_any_case("AIDC_TTS_x.wav"));
    assert!(!is_temp_wav_name_any_case("aidc_tts_x.mp3"));
    assert!(!is_temp_wav_name_any_case(""));
}

#[test]
fn cutoff_lies_the_maximal_age_before_now() {
    assert_eq!(DEFAULT_MAX_AGE_MINUTES, 240);
    assert_eq!(stale_cutoff(1_000_000, None), Some(1_000_000 - 14_400));
    assert_eq!(stale_cutoff(1_000_000, Some(1)), Some(999_940));
    assert_eq!(stale_cutoff(1_000_000, Some(0)), Some(1_000_000));
    assert_eq!(stale_cutoff(60, Some(1)), Some(0));
    assert_eq!(stale_cutoff(59, Some(1)), None);
    assert_eq!(stale_cutoff(u64::MAX, Some(u64::MAX)), Some(0));
    assert_eq!(stale_cutoff(u64::MAX - 1, Some(u64::MAX / 60 + 1)), None);
    assert_eq!(stale_cutoff(0, None), None);
}

#[test]
fn adjustments_are_defaulted_and_limited() {
    assert_eq!(synthesis_adjustments(None, None), (0, 100));
    assert_eq!(synthesis_adjustments(Some(3), Some(80)), (3, 80));
    assert_eq!(synthesis_adjustments(Some(-30), Some(101)), (-10, 100));
    assert_eq!(synthesis_adjustments(Some(11), Some(255)), (10, 100));
    assert_eq!(synthesis_adjustments(Some(-10), Some(0)), (-10, 0));
}

#[test]
fn only_wav_files_are_normalized() {
    assert!(is_normalized("wav"));
    assert!(!is_normalized("mp3"));
    assert!(!is_normalized("ogg"));
    assert!(!is_normalized("opus"));
    assert!(!is_normalized("WAV"));
    assert!(!is_normalized(""));
}
