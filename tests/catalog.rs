use honeymelon::binary::{select_ffmpeg_candidate, BinaryType};
use honeymelon::dialogs::MediaFilter;
use honeymelon::error::AppError;
use honeymelon::job_lifecycle::{can_transition_status, JobStatus};
use honeymelon::output::temp_path_for;
use honeymelon::probe::{is_image_subtitle, subtitle_presence, FfprobeStream};

#[test]
fn queued_can_enter_probing() {
    assert!(can_transition_status(JobStatus::Queued, JobStatus::Probing));
}

#[test]
fn running_requires_planning_first() {
    assert!(!can_transition_status(JobStatus::Queued, JobStatus::Running));
}

#[test]
fn failed_jobs_can_requeue() {
    assert!(can_transition_status(JobStatus::Failed, JobStatus::Queued));
}

#[test]
fn queued_jobs_follow_expected_transition_paths() {
    assert!(can_transition_status(JobStatus::Queued, JobStatus::Probing));
    assert!(can_transition_status(JobStatus::Probing, JobStatus::Planning));
    assert!(can_transition_status(JobStatus::Planning, JobStatus::Running));
    assert!(can_transition_status(JobStatus::Running, JobStatus::Completed));
}

#[test]
fn invalid_state_changes_are_blocked() {
    assert!(
        !can_transition_status(JobStatus::Queued, JobStatus::Running),
        "must probe/plan before running"
    );
    assert!(
        !can_transition_status(JobStatus::Completed, JobStatus::Running),
        "completed jobs must never re-enter active states"
    );
}

#[test]
fn status_classes() {
    assert!(JobStatus::Cancelled.is_terminal());
    assert!(!JobStatus::Running.is_terminal());
    assert!(JobStatus::Planning.is_active());
    assert!(!JobStatus::Queued.is_active());
    assert_eq!(
        JobStatus::Running.allowed_transitions(),
        vec![JobStatus::Completed, JobStatus::Failed, JobStatus::Cancelled, JobStatus::Queued]
    );
}

#[test]
fn media_filter_from_kind_matches_expected_variants() {
    assert!(matches!(MediaFilter::from_kind(Some("video")), MediaFilter::Video));
    assert!(matches!(MediaFilter::from_kind(Some("audio")), MediaFilter::Audio));
    assert!(matches!(MediaFilter::from_kind(Some("image")), MediaFilter::Image));
    assert!(matches!(MediaFilter::from_kind(None), MediaFilter::All));
}

#[test]
fn media_filter_exposes_sensible_labels_and_extensions() {
    let cases = [
        (MediaFilter::Video, "Video Files"),
        (MediaFilter::Audio, "Audio Files"),
        (MediaFilter::Image, "Image Files"),
        (MediaFilter::All, "Media Files"),
    ];
    for (filter, label) in cases {
        assert_eq!(filter.label(), label);
        assert!(!filter.extensions().is_empty());
    }
}

#[test]
fn test_binary_type_env_var_names() {
    assert_eq!(BinaryType::FFmpeg.env_var_name(), "HONEYMELON_FFMPEG_PATH");
    assert_eq!(BinaryType::FFprobe.env_var_name(), "HONEYMELON_FFPROBE_PATH");
}

#[test]
fn test_binary_type_binary_names() {
    assert_eq!(BinaryType::FFmpeg.binary_name(), "ffmpeg");
    assert_eq!(BinaryType::FFprobe.binary_name(), "ffprobe");
}

#[test]
fn select_ffmpeg_candidate_prefers_existing_path() {
    let candidates = vec!["/tmp/hm_ffmpeg_candidate".to_string(), "ffmpeg".to_string()];
    let selected = select_ffmpeg_candidate(&candidates, &[true, false]).expect("expected candidate");
    assert_eq!(selected, "/tmp/hm_ffmpeg_candidate");
    let skipped = select_ffmpeg_candidate(&candidates, &[false, false]).expect("fallback");
    assert_eq!(skipped, "ffmpeg");
}

#[test]
fn select_ffmpeg_candidate_falls_back_to_path_lookup() {
    let candidates = vec!["ffmpeg".to_string()];
    let selected = select_ffmpeg_candidate(&candidates, &[false]).expect("expected fallback");
    assert_eq!(selected, "ffmpeg");
    assert!(select_ffmpeg_candidate(&["bin/ffmpeg".to_string()], &[false]).is_none());
}

fn stream(kind: &str, codec: &str) -> FfprobeStream {
    FfprobeStream {
        codec_type: Some(kind.into()),
        codec_name: Some(codec.into()),
        ..Default::default()
    }
}

#[test]
fn detects_subtitle_types() {
    let streams = vec![stream("subtitle", "ass"), stream("subtitle", "hdmv_pgs_subtitle")];
    let (text, image) = subtitle_presence(&streams);
    assert!(text);
    assert!(image);
}

#[test]
fn detects_text_subtitle_types() {
    let streams = vec![
        stream("subtitle", "srt"),
        stream("subtitle", "ass"),
        stream("subtitle", "subrip"),
    ];
    let (text, image) = subtitle_presence(&streams);
    assert!(text);
    assert!(!image);
}

#[test]
fn detects_image_subtitle_types() {
    let streams = vec![
        stream("subtitle", "pgs"),
        stream("subtitle", "dvd_subtitle"),
        stream("subtitle", "dvdsub"),
    ];
    let (text, image) = subtitle_presence(&streams);
    assert!(!text);
    assert!(image);
}

#[test]
fn subtitle_codec_names_are_compared_in_lower_case() {
    let (text, image) = subtitle_presence(&[stream("subtitle", "PGS")]);
    assert!(!text);
    assert!(image);
}

#[test]
fn test_is_image_subtitle() {
    assert!(is_image_subtitle("pgs"));
    assert!(is_image_subtitle("hdmv_pgs_subtitle"));
    assert!(is_image_subtitle("dvd_subtitle"));
    assert!(is_image_subtitle("dvdsub"));
    assert!(is_image_subtitle("xsub"));
    assert!(is_image_subtitle("webp"));
    assert!(!is_image_subtitle("srt"));
    assert!(!is_image_subtitle("ass"));
    assert!(!is_image_subtitle("subrip"));
}

#[test]
fn test_subtitle_presence_no_subtitles() {
    let streams = vec![stream("video", "h264"), stream("audio", "aac")];
    let (text, image) = subtitle_presence(&streams);
    assert!(!text);
    assert!(!image);
}

#[test]
fn temp_path_sits_beside_the_output() {
    assert_eq!(temp_path_for("/output/video.mp4").unwrap(), "/output/video.mp4.tmp");
    assert_eq!(temp_path_for("clip.mov").unwrap(), "clip.mov.tmp");
    assert_eq!(temp_path_for("/").unwrap(), "/output.tmp");
}

#[test]
fn test_app_error_creation() {
    let error = AppError::new("test_code", "test message");
    assert_eq!(error.code, "test_code");
    assert_eq!(error.message, "test message");
}

#[test]
fn test_app_error_with_string() {
    let error = AppError::new("test_code", "owned string".to_string());
    assert_eq!(error.code, "test_code");
    assert_eq!(error.message, "owned string");
}

#[test]
fn test_app_error_clone() {
    let error = AppError::new("test_code", "test message");
    let cloned = error.clone();
    assert_eq!(cloned.code, error.code);
    assert_eq!(cloned.message, error.message);
}

#[test]
fn test_error_debug_format() {
    let error = AppError::new("test_code", "test message");
    let debug_str = format!("{:?}", error);
    assert!(debug_str.contains("test_code"));
    assert!(debug_str.contains("test message"));
}

#[test]
fn test_error_with_empty_message() {
    let error = AppError::new("empty_msg", "");
    assert_eq!(error.code, "empty_msg");
    assert_eq!(error.message, "");
}

#[test]
fn test_error_with_long_message() {
    let long_message = "a".repeat(1000);
    let error = AppError::new("long_msg", long_message.clone());
    assert_eq!(error.code, "long_msg");
    assert_eq!(error.message, long_message);
}

#[test]
fn test_error_with_special_characters() {
    let error = AppError::new("special_chars", "Error: \n\t\"quoted\" 'text' \\backslash");
    assert_eq!(error.code, "special_chars");
    assert!(error.message.contains("quoted"));
    assert!(error.message.contains("\\backslash"));
}

#[test]
fn test_from_io_error() {
    let io_error = std::io::Error::new(std::io::ErrorKind::NotFound, "file not found");
    let app_error: AppError = io_error.into();
    assert_eq!(app_error.code, "io_error");
    assert!(app_error.message.contains("file not found"));
}
