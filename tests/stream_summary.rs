use honeymelon::probe::{stream_facts, FfprobeStream};

fn stream(kind: &str, codec: &str) -> FfprobeStream {
    FfprobeStream {
        codec_type: Some(kind.into()),
        codec_name: Some(codec.into()),
        ..Default::default()
    }
}

#[test]
fn stream_facts_of_a_multi_stream_file() {
    let streams = vec![
        FfprobeStream {
            width: Some(3840),
            height: Some(2160),
            avg_frame_rate: Some("24000/1001".into()),
            ..stream("video", "HEVC")
        },
        FfprobeStream { channels: Some(6), ..stream("audio", "opus") },
        stream("subtitle", "srt"),
        FfprobeStream { width: Some(1), ..stream("video", "h264") },
    ];
    let facts = stream_facts(&streams);
    assert_eq!(facts.vcodec, Some("hevc".to_string()));
    assert_eq!(facts.acodec, Some("opus".to_string()));
    assert_eq!(facts.width, Some(3840));
    assert_eq!(facts.height, Some(2160));
    assert_eq!(facts.frame_rate.as_deref(), Some("24000/1001"));
    assert_eq!(facts.channels, Some(6));
    assert!(facts.has_text_subs);
    assert!(!facts.has_image_subs);
    assert!(facts.color.is_none());
}

#[test]
fn stream_facts_fall_back_to_the_real_frame_rate() {
    let streams = vec![FfprobeStream { r_frame_rate: Some("60/1".into()), ..stream("video", "vp9") }];
    assert_eq!(stream_facts(&streams).frame_rate.as_deref(), Some("60/1"));
}

#[test]
fn stream_facts_keep_partial_color_metadata() {
    let streams = vec![FfprobeStream { color_primaries: Some("bt709".into()), ..stream("video", "h264") }];
    let color = stream_facts(&streams).color.expect("color");
    assert_eq!(color.primaries, Some("bt709".to_string()));
    assert_eq!(color.trc, None);
    assert_eq!(color.space, None);
}

#[test]
fn stream_facts_of_an_audio_only_file() {
    let facts = stream_facts(&[stream("audio", "AAC")]);
    assert_eq!(facts.acodec, Some("aac".to_string()));
    assert_eq!(facts.vcodec, None);
    assert_eq!(facts.width, None);
    assert_eq!(facts.frame_rate, None);
}
