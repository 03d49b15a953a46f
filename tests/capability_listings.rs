use honeymelon::capabilities::{parse_encoders, parse_filters, parse_formats};

#[test]
fn parses_encoders() {
    let sample = "
 V..... h264           H.264 / AVC / MPEG-4 AVC / MPEG-4 part 10 (codec avc1)
 A..... aac            AAC (Advanced Audio Coding)
 S..... ass            ASS (Advanced SSA) subtitle
";
    let (video, audio) = parse_encoders(sample);
    assert_eq!(video, vec!["h264"]);
    assert_eq!(audio, vec!["aac"]);
}

#[test]
fn parses_encoders_multiple() {
    let sample = "
 V..... libx264        libx264 H.264 / AVC / MPEG-4 AVC / MPEG-4 part 10
 V..... libx265        libx265 H.265 / HEVC
 V..... libvpx-vp9     libvpx VP9
 A..... libopus        libopus Opus
 A..... aac            AAC (Advanced Audio Coding)
 A..... libmp3lame     libmp3lame MP3 (MPEG audio layer 3)
";
    let (video, audio) = parse_encoders(sample);
    assert_eq!(video, vec!["libvpx-vp9", "libx264", "libx265"]);
    assert_eq!(audio, vec!["aac", "libmp3lame", "libopus"]);
}

#[test]
fn parses_encoders_ignores_subtitles() {
    let sample = "
 V..... h264           H.264
 A..... aac            AAC
 S..... ass            ASS subtitle
 S..... srt            SubRip subtitle
";
    let (video, audio) = parse_encoders(sample);
    assert_eq!(video, vec!["h264"]);
    assert_eq!(audio, vec!["aac"]);
}

#[test]
fn parses_encoders_short_lines() {
    let sample = "
 V..... h264
 A
 short
";
    let (video, audio) = parse_encoders(sample);
    assert_eq!(video, vec!["h264"]);
    assert_eq!(audio.len(), 0);
}

#[test]
fn parses_encoders_empty() {
    let sample = "";
    let (video, audio) = parse_encoders(sample);
    assert_eq!(video.len(), 0);
    assert_eq!(audio.len(), 0);
}

#[test]
fn parses_formats() {
    let sample = "
 D  matroska             Matroska
 E  mp4                  MP4 (MPEG-4 Part 14)
 D  mov,mp4,m4a,3gp,3g2,mj2 QuickTime / MOV
";
    let formats = parse_formats(sample);
    assert!(formats.contains(&"matroska".to_string()));
    assert!(formats.contains(&"mp4".to_string()));
}

#[test]
fn parses_formats_demux_and_mux() {
    let sample = "
 DE matroska,webm       Matroska / WebM
 DE mp4                 MP4 (MPEG-4 Part 14)
 D  mov,mp4,m4a         QuickTime / MOV
 E  webm                WebM
";
    let formats = parse_formats(sample);
    assert!(formats.contains(&"matroska,webm".to_string()));
    assert!(formats.contains(&"mp4".to_string()));
    assert!(formats.contains(&"mov,mp4,m4a".to_string()));
    assert!(formats.contains(&"webm".to_string()));
}

#[test]
fn parses_formats_ignores_invalid() {
    let sample = "
 DE mp4                 MP4
invalid            No flags
 X  notvalid            Wrong flag
";
    let formats = parse_formats(sample);
    assert!(formats.contains(&"mp4".to_string()));
    assert_eq!(formats.len(), 1);
}

#[test]
fn parses_formats_empty() {
    let sample = "";
    let formats = parse_formats(sample);
    assert_eq!(formats.len(), 0);
}

#[test]
fn parses_filters() {
    let sample = "
scale               V->V       Scale the input video to width:height size and/or convert the image format.
transpose           V->V       Transpose rows with columns.
";
    let filters = parse_filters(sample);
    assert!(filters.contains(&"scale".to_string()));
    assert!(filters.contains(&"transpose".to_string()));
}

#[test]
fn parses_filters_multiple_types() {
    let sample = "
aformat             A->A       Convert the input audio to one of the specified formats.
scale               V->V       Scale the input video size and/or convert the image format.
overlay             VV->V      Overlay a video source on top of the input.
amix                AA->A      Audio mixing.
";
    let filters = parse_filters(sample);
    assert!(filters.contains(&"aformat".to_string()));
    assert!(filters.contains(&"scale".to_string()));
    assert!(filters.contains(&"overlay".to_string()));
    assert!(filters.contains(&"amix".to_string()));
}

#[test]
fn parses_filters_ignores_asterisks() {
    let sample = "
*scale              V->V       Scale filter
crop                V->V       Crop the input video
";
    let filters = parse_filters(sample);
    assert!(!filters.contains(&"*scale".to_string()));
    assert!(filters.contains(&"crop".to_string()));
}

#[test]
fn parses_filters_short_lines() {
    let sample = "
scale               V->V       Description
x
ab
";
    let filters = parse_filters(sample);
    assert!(filters.contains(&"scale".to_string()));
    // x and ab are both valid filter names (short but valid)
    assert!(!filters.is_empty());
}

#[test]
fn parses_filters_empty() {
    let sample = "";
    let filters = parse_filters(sample);
    assert_eq!(filters.len(), 0);
}

#[test]
fn test_parse_encoders_preserves_sorted_order() {
    let sample = "
 V..... zlib           LCL (LossLess Codec Library) ZLIB
 V..... h264           H.264
 V..... aac_at         AAC (Advanced Audio Coding) (codec aac)
 A..... zlib_encoder   Custom
 A..... aac            AAC (Advanced Audio Coding)
";
    let (video, audio) = parse_encoders(sample);
    // BTreeSet should sort them
    assert_eq!(video[0], "aac_at");
    assert_eq!(video[1], "h264");
    assert_eq!(video[2], "zlib");

    assert_eq!(audio[0], "aac");
    assert_eq!(audio[1], "zlib_encoder");
}

#[test]
fn test_parse_formats_deduplication() {
    let sample = "
 DE mp4                 MP4
 DE mp4                 MP4 duplicate
 E  webm                WebM
";
    let formats = parse_formats(sample);
    // Should only have 2 unique formats
    assert_eq!(formats.len(), 2);
    assert!(formats.contains(&"mp4".to_string()));
    assert!(formats.contains(&"webm".to_string()));
}

#[test]
fn test_parse_filters_deduplication() {
    let sample = "
scale               V->V       Scale
scale               V->V       Scale duplicate
crop                V->V       Crop
";
    let filters = parse_filters(sample);
    // Should only have 2 unique filters
    assert_eq!(filters.len(), 2);
    assert!(filters.contains(&"scale".to_string()));
    assert!(filters.contains(&"crop".to_string()));
}

#[test]
fn test_multiline_string_parsing() {
    let output = "
 V..... h264           H.264 / AVC / MPEG-4 AVC
 V..... hevc           H.265 / HEVC
 A..... aac            AAC (Advanced Audio Coding)
 A..... opus           Opus
";
    let lines: Vec<&str> = output.lines().collect();
    let non_empty: Vec<&str> = lines.into_iter().filter(|l| !l.trim().is_empty()).collect();
    assert_eq!(non_empty.len(), 4);
    let (video, audio) = parse_encoders(output);
    assert_eq!(video.len() + audio.len(), 4);
}

#[test]
fn listing_lines_with_crlf_and_wide_characters() {
    let (video, audio) = parse_encoders(" V..... h264 H.264\r\n A..... aac AAC\r\n");
    assert_eq!(video, vec!["h264"]);
    assert_eq!(audio, vec!["aac"]);
    let (video, _) = parse_encoders(" V.....é x264 wide flag column\n");
    assert!(video.is_empty());
    assert_eq!(parse_filters("  \u{3000}zoom  V->V\n"), vec!["zoom"]);
}
