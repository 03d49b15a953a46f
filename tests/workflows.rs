use honeymelon::concurrency::ConcurrencyManager;
use honeymelon::decimal::parse_decimal;
use honeymelon::error::AppError;
use honeymelon::job_lifecycle::{can_transition_status, JobStatus};
use honeymelon::output::temp_path_for;
use honeymelon::process::RunningProcess;
use honeymelon::progress::{parse_progress_line, parse_timecode};
use honeymelon::registry::{JobRecord, JobRegistry};
use honeymelon::validator::JobValidator;
use std::collections::{BTreeSet, HashSet};
use std::path::{Path, PathBuf};
use std::sync::Mutex;

fn registry_with(count: usize, exclusive: bool) -> JobRegistry<()> {
    let mut registry = JobRegistry::new();
    for i in 0..count {
        registry
            .register(format!("job-{i}"), JobRecord::new((), String::new(), String::new(), exclusive), 16)
            .unwrap();
    }
    registry
}

#[test]
fn test_start_job_validation() {
    let validator = JobValidator::new();
    let empty_args: Vec<String> = vec![];
    assert!(empty_args.is_empty());
    assert!(validator.validate_args(&empty_args).is_err());
    let valid_args = [
        "-i".to_string(),
        "input.mp4".to_string(),
        "-c:v".to_string(),
        "libx264".to_string(),
    ];
    assert!(!valid_args.is_empty());
    assert!(validator.validate_args(&valid_args).is_ok());
}

#[test]
fn test_job_concurrency_logic() {
    let validator = JobValidator::new();
    let max_concurrency = 2;
    let active_jobs = registry_with(1, false);
    assert!(validator.validate_concurrency("next", &active_jobs, max_concurrency, false).is_ok());
    let active_jobs = registry_with(2, false);
    assert!(validator.validate_concurrency("next", &active_jobs, max_concurrency, false).is_err());
}

#[test]
fn test_exclusive_job_logic() {
    let validator = JobValidator::new();
    let exclusive = true;
    let active_jobs = registry_with(1, false);
    assert!(validator.validate_concurrency("next", &active_jobs, 4, exclusive).is_err());
    let active_jobs = registry_with(0, false);
    assert!(validator.validate_concurrency("next", &active_jobs, 4, exclusive).is_ok());
}

#[test]
fn test_ffmpeg_path_resolution() {
    let resource_dir = PathBuf::from("/Applications/Honeymelon.app/Contents/Resources");
    let bundled_ffmpeg = resource_dir.join("bin/ffmpeg");
    let system_ffmpeg = PathBuf::from("ffmpeg");
    let candidates = [bundled_ffmpeg, system_ffmpeg];
    assert_eq!(candidates.len(), 2);
}

#[test]
fn test_temp_file_naming() {
    let output_path = Path::new("/output/video.mp4");
    let file_name = output_path.file_name().unwrap().to_str().unwrap();
    assert_eq!(file_name, "video.mp4");
    let temp_name = format!("{}.tmp", file_name);
    assert_eq!(temp_name, "video.mp4.tmp");
    let temp_path = temp_path_for("/output/video.mp4").unwrap();
    assert!(temp_path.ends_with("video.mp4.tmp"));
}

#[test]
fn test_cache_file_path() {
    let app_cache_dir = PathBuf::from("/Users/test/Library/Caches/com.honeymelon");
    let cache_file = app_cache_dir.join("ffmpeg-capabilities.json");
    assert!(cache_file.to_string_lossy().ends_with("ffmpeg-capabilities.json"));
    if let Some(parent) = cache_file.parent() {
        assert_eq!(parent, app_cache_dir);
    }
}

#[test]
fn test_set_max_concurrency_validation() {
    let mut manager = ConcurrencyManager::new();
    manager.set_limit(0);
    assert_eq!(manager.get_limit(), 1);
    manager.set_limit(5);
    assert_eq!(manager.get_limit(), 5);
}

#[test]
fn test_job_state_transitions() {
    let path = [
        JobStatus::Queued,
        JobStatus::Probing,
        JobStatus::Planning,
        JobStatus::Running,
        JobStatus::Completed,
    ];
    let mut state = path[0];
    assert_eq!(state, JobStatus::Queued);
    for next in &path[1..] {
        assert!(can_transition_status(state, *next));
        state = *next;
        assert_eq!(state, *next);
    }
    assert_eq!(state, JobStatus::Completed);
}

#[test]
fn test_error_handling_integration() {
    let io_error = std::io::Error::new(std::io::ErrorKind::NotFound, "test file not found");
    let error_message = io_error.to_string();
    assert!(error_message.contains("not found"));
    let app_error = AppError::new("io_error", error_message);
    assert!(app_error.message.contains("not found"));
}

#[test]
fn test_path_handling_edge_cases() {
    let paths = vec!["".to_string(), "/nonexistent/path".to_string(), "relative/path".to_string()];
    for path in paths {
        let _ = PathBuf::from(&path);
        let _ = temp_path_for(&path);
    }
}

#[test]
fn test_string_collections_workflow() {
    let mut video_encoders = BTreeSet::new();
    video_encoders.insert("h264".to_string());
    video_encoders.insert("hevc".to_string());
    video_encoders.insert("vp9".to_string());
    let mut visited_paths = HashSet::new();
    visited_paths.insert(PathBuf::from("/path/1"));
    visited_paths.insert(PathBuf::from("/path/2"));
    let encoders_vec: Vec<String> = video_encoders.into_iter().collect();
    assert_eq!(encoders_vec[0], "h264");
    assert_eq!(encoders_vec[1], "hevc");
    assert_eq!(encoders_vec[2], "vp9");
    assert_eq!(visited_paths.len(), 2);
}

#[test]
fn test_duration_parsing_variations() {
    let durations = vec!["120.5", "0.0", "1234.567", "60"];
    for dur_str in durations {
        assert!(parse_decimal(dur_str).is_some());
        assert!(parse_timecode(dur_str).is_some());
    }
    assert!(parse_decimal("invalid").is_none());
}

#[test]
fn test_file_extension_handling() {
    let filenames = vec![
        "video.mp4",
        "video.mkv",
        "audio.m4a",
        "video.name.with.dots.webm",
        "noextension",
    ];
    for filename in filenames {
        let path = Path::new(filename);
        let _extension = path.extension();
    }
}

#[test]
fn test_log_rotation_simulation() {
    let mut process = RunningProcess::new(false);
    for i in 0..600 {
        process.push_log(&format!("log {}", i));
    }
    let logs = process.drain_logs();
    assert_eq!(logs.len(), 500);
    assert_eq!(logs[0], "log 100");
    assert_eq!(logs[499], "log 599");
}

#[test]
fn test_progress_parsing_workflow() {
    let progress_lines = vec![
        "frame=  100 fps=30 time=00:00:03.33 speed=1.0x",
        "frame=  200 fps=29.97 time=00:00:06.67 speed=0.99x",
        "size=    1024kB time=00:00:10.00 bitrate=838.9kbits/s speed=1.5x",
    ];
    for line in progress_lines {
        let metrics = parse_progress_line(line).expect("progress metrics");
        assert!(metrics.processed_seconds.is_some());
        assert!(metrics.speed.is_some());
    }
}

#[test]
fn test_mutex_operations() {
    let data = Mutex::new(vec![1, 2, 3]);
    {
        let mut guard = data.lock().unwrap();
        guard.push(4);
        guard.push(5);
    }
    let final_data = data.lock().unwrap();
    assert_eq!(final_data.len(), 5);
    assert_eq!(final_data[4], 5);
}

#[test]
fn test_option_chaining() {
    let nested: Option<Option<String>> = Some(Some("value".to_string()));
    let flattened = nested.and_then(|inner| inner);
    assert_eq!(flattened, Some("value".to_string()));
    let empty: Option<Option<String>> = Some(None);
    let result = empty.and_then(|inner| inner);
    assert_eq!(result, None);
}

fn operation_that_fails() -> Result<i32, String> {
    Err("operation failed".to_string())
}

fn chain_operation() -> Result<i32, String> {
    let _value = operation_that_fails()?;
    Ok(42)
}

#[test]
fn test_result_error_propagation() {
    let result = chain_operation();
    assert!(result.is_err());
    assert_eq!(result.unwrap_err(), "operation failed");
}

#[test]
fn test_string_split_parsing() {
    let line = "time=00:01:30.5 fps=29.97 speed=1.23x";
    let parts: Vec<&str> = line.split_whitespace().collect();
    assert!(parts.len() >= 3);
    for part in parts {
        if let Some(value) = part.strip_prefix("time=") {
            assert!(!value.is_empty());
        }
    }
    let metrics = parse_progress_line(line).unwrap();
    assert!(metrics.processed_seconds.is_some() && metrics.fps.is_some() && metrics.speed.is_some());
}

#[test]
fn test_path_operations_integration() {
    let base = PathBuf::from("/tmp/test");
    let file = base.join("video.mp4");
    let temp = file.with_extension("mp4.tmp");
    assert_eq!(file.extension().unwrap(), "mp4");
    assert!(temp.to_string_lossy().ends_with(".tmp"));
    if let Some(parent) = file.parent() {
        assert_eq!(parent, base);
    }
}

#[test]
fn test_multiple_job_ids() {
    let mut active_jobs: JobRegistry<bool> = JobRegistry::new();
    for id in ["job-1", "job-2", "job-3"] {
        active_jobs
            .register(id.to_string(), JobRecord::new(true, String::new(), String::new(), false), 8)
            .unwrap();
    }
    assert_eq!(active_jobs.len(), 3);
    assert!(active_jobs.snapshot("job-1").is_some());
    active_jobs.remove("job-1");
    assert_eq!(active_jobs.len(), 2);
    assert!(active_jobs.snapshot("job-1").is_none());
}

#[test]
fn test_cancel_job_workflow() {
    let mut process = RunningProcess::new(false);
    assert!(!process.is_cancelled());
    process.mark_cancelled();
    assert!(process.is_cancelled());
}

#[test]
fn test_atomic_operations() {
    let mut process = RunningProcess::new(false);
    assert!(!process.is_cancelled());
    process.mark_cancelled();
    assert!(process.is_cancelled());
    let mut max_concurrency = ConcurrencyManager::new();
    assert_eq!(max_concurrency.get_limit(), 2);
    max_concurrency.set_limit(5);
    assert_eq!(max_concurrency.get_limit(), 5);
}
