//! Facts read from the streams of a probed media file.
use vstd::prelude::*;
use vstd::string::*;

verus! {

/// Colour metadata of a video stream.
#[derive(Debug, Clone)]
pub struct ProbeColor {
    pub primaries: Option<String>,
    pub trc: Option<String>,
    pub space: Option<String>,
}

/// One stream as the prober reports it.
#[derive(Debug, Clone)]
pub struct FfprobeStream {
    pub codec_type: Option<String>,
    pub codec_name: Option<String>,
    pub width: Option<u32>,
    pub height: Option<u32>,
    pub avg_frame_rate: Option<String>,
    pub r_frame_rate: Option<String>,
    pub channels: Option<u32>,
    pub color_primaries: Option<String>,
    pub color_transfer: Option<String>,
    pub color_space: Option<String>,
}

impl Default for FfprobeStream {
    fn default() -> (r: FfprobeStream)
        ensures
            r.codec_type is None,
            r.codec_name is None,
    {
        FfprobeStream {
            codec_type: None,
            codec_name: None,
            width: None,
            height: None,
            avg_frame_rate: None,
            r_frame_rate: None,
            channels: None,
            color_primaries: None,
            color_transfer: None,
            color_space: None,
        }
    }
}

/// The lower-case form of a text, as `str::to_lowercase` gives it.
pub uninterp spec fn lower_of(s: Seq<char>) -> Seq<char>;

/// Relies on `str::to_lowercase`: the result depends on the characters alone,
/// and the empty text stays empty.
#[verifier::external_body]
fn lowercase(s: &str) -> (r: String)
    ensures
        r@ == lower_of(s@),
        s@.len() == 0 ==> r@.len() == 0,
{
    s.to_lowercase()
}

/// Bitmap subtitle codecs.
pub open spec fn image_codec(c: Seq<char>) -> bool {
    c == "pgs"@ || c == "hdmv_pgs_subtitle"@ || c == "dvd_subtitle"@ || c == "dvdsub"@ || c
        == "xsub"@ || c == "webp"@
}

/// Whether the codec name is that of a bitmap subtitle format.
pub fn is_image_subtitle(codec: &str) -> (r: bool)
    ensures
        r == image_codec(codec@),
{
    let c = String::from_str(codec);
    c == String::from_str("pgs") || c == String::from_str("hdmv_pgs_subtitle") || c
        == String::from_str("dvd_subtitle") || c == String::from_str("dvdsub") || c
        == String::from_str("xsub") || c == String::from_str("webp")
}

pub open spec fn is_subtitle_stream(s: FfprobeStream) -> bool {
    s.codec_type matches Some(t) && t@ == "subtitle"@
}

/// The lower-cased codec name of a stream, empty when it has none.
pub open spec fn codec_key(s: FfprobeStream) -> Seq<char> {
    match s.codec_name {
        Some(n) => lower_of(n@),
        None => lower_of(Seq::<char>::empty()),
    }
}

pub open spec fn has_subtitles(streams: Seq<FfprobeStream>, image: bool) -> bool {
    exists|i: int|
        0 <= i < streams.len() && is_subtitle_stream(#[trigger] streams[i]) && image_codec(
            codec_key(streams[i]),
        ) == image
}

/// Whether the streams hold text subtitles and whether they hold bitmap subtitles.
pub fn subtitle_presence(streams: &[FfprobeStream]) -> (r: (bool, bool))
    ensures
        r.0 == has_subtitles(streams@, false),
        r.1 == has_subtitles(streams@, true),
{
    let mut has_text = false;
    let mut has_image = false;
    let subtitle = String::from_str("subtitle");
    let mut i: usize = 0;
    while i < streams.len()
        invariant
            subtitle@ == "subtitle"@,
            i <= streams@.len(),
            has_text == has_subtitles(streams@.subrange(0, i as int), false),
            has_image == has_subtitles(streams@.subrange(0, i as int), true),
        decreases streams@.len() - i,
    {
        let ghost prefix = streams@.subrange(0, i as int);
        let ghost next = streams@.subrange(0, i + 1);
        let s = &streams[i];
        let is_sub = match &s.codec_type {
            Some(t) => *t == subtitle,
            None => false,
        };
        if is_sub {
            let codec = match &s.codec_name {
                Some(n) => lowercase(n.as_str()),
                None => lowercase(""),
            };
            proof {
                reveal_strlit("");
                assert(""@ =~= Seq::<char>::empty());
            }
            if is_image_subtitle(codec.as_str()) {
                has_image = true;
            } else {
                has_text = true;
            }
        }
        proof {
            assert(next[i as int] == streams@[i as int]);
            assert forall|image: bool| has_subtitles(next, image) == (has_subtitles(prefix, image) || (
            is_subtitle_stream(streams@[i as int]) && image_codec(codec_key(streams@[i as int]))
                == image)) by {
                if has_subtitles(prefix, image) {
                    let k = choose|k: int|
                        0 <= k < prefix.len() && is_subtitle_stream(#[trigger] prefix[k])
                            && image_codec(codec_key(prefix[k])) == image;
                    assert(next[k] == prefix[k]);
                }
                if has_subtitles(next, image) {
                    let k = choose|k: int|
                        0 <= k < next.len() && is_subtitle_stream(#[trigger] next[k])
                            && image_codec(codec_key(next[k])) == image;
                    if k < i {
                        assert(next[k] == prefix[k]);
                    }
                }
            }
        }
        i = i + 1;
    }
    assert(streams@.subrange(0, i as int) =~= streams@);
    (has_text, has_image)
}

pub open spec fn has_type(s: FfprobeStream, kind: Seq<char>) -> bool {
    s.codec_type matches Some(t) && t@ == kind
}

/// The index of the first stream of type `kind` at or after `from`.
pub open spec fn first_from(streams: Seq<FfprobeStream>, kind: Seq<char>, from: int) -> Option<int>
    decreases streams.len() - from,
{
    if from < 0 || from >= streams.len() {
        None
    } else if has_type(streams[from], kind) {
        Some(from)
    } else {
        first_from(streams, kind, from + 1)
    }
}

/// What the summary of a probed file takes from its first video stream, its
/// first audio stream and its subtitle streams; the duration and the frame
/// rate, which are floating point, are read from the text kept here.
#[derive(Debug, Clone)]
pub struct StreamFacts {
    pub width: Option<u32>,
    pub height: Option<u32>,
    /// The video stream's average frame rate, or else its real frame rate, as text.
    pub frame_rate: Option<String>,
    pub vcodec: Option<String>,
    pub acodec: Option<String>,
    pub has_text_subs: bool,
    pub has_image_subs: bool,
    pub channels: Option<u32>,
    pub color: Option<ProbeColor>,
}

proof fn lemma_first_from_found(streams: Seq<FfprobeStream>, kind: Seq<char>, from: int)
    ensures
        first_from(streams, kind, from) matches Some(j) ==> from <= j < streams.len() && has_type(
            streams[j],
            kind,
        ),
    decreases streams.len() - from,
{
    if 0 <= from < streams.len() && !has_type(streams[from], kind) {
        lemma_first_from_found(streams, kind, from + 1);
    }
}

pub open spec fn opt_view(o: Option<String>) -> Option<Seq<char>> {
    match o {
        Some(s) => Some(s@),
        None => None,
    }
}

pub open spec fn lower_name(o: Option<String>) -> Option<Seq<char>> {
    match o {
        Some(s) => Some(lower_of(s@)),
        None => None,
    }
}

fn clone_text(o: &Option<String>) -> (r: Option<String>)
    ensures
        r == *o,
{
    match o {
        Some(s) => Some(s.clone()),
        None => None,
    }
}

/// The index of the first stream of type `kind`.
fn first_of_type(streams: &[FfprobeStream], kind: &str) -> (r: Option<usize>)
    ensures
        r is None <==> first_from(streams@, kind@, 0) is None,
        r matches Some(i) ==> first_from(streams@, kind@, 0) == Some(i as int) && i < streams@.len(),
{
    proof {
        lemma_first_from_found(streams@, kind@, 0);
    }
    let want = String::from_str(kind);
    let mut i: usize = 0;
    while i < streams.len()
        invariant
            want@ == kind@,
            i <= streams@.len(),
            first_from(streams@, kind@, 0) == first_from(streams@, kind@, i as int),
        decreases streams@.len() - i,
    {
        let matches = match &streams[i].codec_type {
            Some(t) => *t == want,
            None => false,
        };
        if matches {
            return Some(i);
        }
        i = i + 1;
    }
    None
}

/// Summarises the streams of a probed file.
pub fn stream_facts(streams: &[FfprobeStream]) -> (r: StreamFacts)
    ensures
        ({
            let video = first_from(streams@, "video"@, 0);
            let audio = first_from(streams@, "audio"@, 0);
            &&& r.has_text_subs == has_subtitles(streams@, false)
            &&& r.has_image_subs == has_subtitles(streams@, true)
            &&& match video {
                None => r.width is None && r.height is None && r.frame_rate is None && r.vcodec is None
                    && r.color is None,
                Some(v) => {
                    let s = streams@[v];
                    &&& r.width == s.width
                    &&& r.height == s.height
                    &&& opt_view(r.frame_rate) == (if s.avg_frame_rate is Some {
                        opt_view(s.avg_frame_rate)
                    } else {
                        opt_view(s.r_frame_rate)
                    })
                    &&& opt_view(r.vcodec) == lower_name(s.codec_name)
                    &&& (r.color is Some <==> (s.color_primaries is Some || s.color_transfer is Some
                        || s.color_space is Some))
                    &&& (r.color matches Some(c) ==> c.primaries == s.color_primaries && c.trc
                        == s.color_transfer && c.space == s.color_space)
                },
            }
            &&& match audio {
                None => r.acodec is None && r.channels is None,
                Some(a) => opt_view(r.acodec) == lower_name(streams@[a].codec_name)
                    && r.channels == streams@[a].channels,
            }
        }),
{
    let (has_text_subs, has_image_subs) = subtitle_presence(streams);
    let video = first_of_type(streams, "video");
    let audio = first_of_type(streams, "audio");
    let mut facts = StreamFacts {
        width: None,
        height: None,
        frame_rate: None,
        vcodec: None,
        acodec: None,
        has_text_subs,
        has_image_subs,
        channels: None,
        color: None,
    };
    match video {
        Some(v) => {
            let s = &streams[v];
            facts.width = s.width;
            facts.height = s.height;
            facts.frame_rate = match &s.avg_frame_rate {
                Some(f) => Some(f.clone()),
                None => clone_text(&s.r_frame_rate),
            };
            facts.vcodec = match &s.codec_name {
                Some(n) => Some(lowercase(n.as_str())),
                None => None,
            };
            if s.color_primaries.is_some() || s.color_transfer.is_some() || s.color_space.is_some() {
                facts.color = Some(
                    ProbeColor {
                        primaries: clone_text(&s.color_primaries),
                        trc: clone_text(&s.color_transfer),
                        space: clone_text(&s.color_space),
                    },
                );
            }
        },
        None => {},
    }
    match audio {
        Some(a) => {
            let s = &streams[a];
            facts.acodec = match &s.codec_name {
                Some(n) => Some(lowercase(n.as_str())),
                None => None,
            };
            facts.channels = s.channels;
        },
        None => {},
    }
    facts
}

} // verus!
