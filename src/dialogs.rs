//! File-picker filter categories.
use vstd::prelude::*;
use vstd::string::*;

verus! {

/// The categories offered by the media file picker.
#[derive(Clone, Copy, Debug, PartialEq, Eq, Structural)]
pub enum MediaFilter {
    Video,
    Audio,
    Image,
    All,
}

/// The extensions each category accepts.
pub open spec fn extension_list(f: MediaFilter) -> Seq<&'static str> {
    match f {
        MediaFilter::Video => seq![
            "mp4", "m4v", "mov", "mkv", "webm", "avi", "mpg", "mpeg", "ts", "m2ts", "mxf", "hevc",
            "h265", "h264", "flv", "ogv", "wmv", "gif",
        ],
        MediaFilter::Audio => seq![
            "mp3", "aac", "m4a", "flac", "wav", "aiff", "aif", "ogg", "opus", "wma", "alac", "wave",
        ],
        MediaFilter::Image => seq!["png", "jpg", "jpeg", "gif", "webp"],
        MediaFilter::All => seq![
            "mp4", "m4v", "mov", "mkv", "webm", "avi", "mpg", "mpeg", "ts", "m2ts", "mxf", "hevc",
            "h265", "h264", "flv", "ogv", "wmv", "gif", "mp3", "aac", "m4a", "flac", "wav", "aiff",
            "aif", "ogg", "opus", "wma", "alac", "wave", "png", "jpg", "jpeg", "webp",
        ],
    }
}

impl MediaFilter {
    /// `"video"`, `"audio"` and `"image"` name their category; anything else is `All`.
    pub fn from_kind(input: Option<&str>) -> (r: MediaFilter)
        ensures
            r == (match input {
                Some(k) => if k@ == "video"@ {
                    MediaFilter::Video
                } else if k@ == "audio"@ {
                    MediaFilter::Audio
                } else if k@ == "image"@ {
                    MediaFilter::Image
                } else {
                    MediaFilter::All
                },
                None => MediaFilter::All,
            }),
    {
        match input {
            Some(k) => {
                let kind = String::from_str(k);
                if kind == String::from_str("video") {
                    MediaFilter::Video
                } else if kind == String::from_str("audio") {
                    MediaFilter::Audio
                } else if kind == String::from_str("image") {
                    MediaFilter::Image
                } else {
                    MediaFilter::All
                }
            },
            None => MediaFilter::All,
        }
    }

    /// The file extensions the category accepts.
    pub fn extensions(&self) -> (r: Vec<&'static str>)
        ensures
            r@ == extension_list(*self),
            r@.len() > 0,
    {
        let r = match self {
            MediaFilter::Video => vec![
                "mp4", "m4v", "mov", "mkv", "webm", "avi", "mpg", "mpeg", "ts", "m2ts", "mxf",
                "hevc", "h265", "h264", "flv", "ogv", "wmv", "gif",
            ],
            MediaFilter::Audio => vec![
                "mp3", "aac", "m4a", "flac", "wav", "aiff", "aif", "ogg", "opus", "wma", "alac",
                "wave",
            ],
            MediaFilter::Image => vec!["png", "jpg", "jpeg", "gif", "webp"],
            MediaFilter::All => vec![
                "mp4", "m4v", "mov", "mkv", "webm", "avi", "mpg", "mpeg", "ts", "m2ts", "mxf",
                "hevc", "h265", "h264", "flv", "ogv", "wmv", "gif", "mp3", "aac", "m4a", "flac",
                "wav", "aiff", "aif", "ogg", "opus", "wma", "alac", "wave", "png", "jpg", "jpeg",
                "webp",
            ],
        };
        assert(r@ =~= extension_list(*self));
        r
    }

    /// The label shown for the category.
    pub fn label(&self) -> (r: &'static str)
        ensures
            r == (match *self {
                MediaFilter::Video => "Video Files",
                MediaFilter::Audio => "Audio Files",
                MediaFilter::Image => "Image Files",
                MediaFilter::All => "Media Files",
            }),
    {
        match self {
            MediaFilter::Video => "Video Files",
            MediaFilter::Audio => "Audio Files",
            MediaFilter::Image => "Image Files",
            MediaFilter::All => "Media Files",
        }
    }
}

} // verus!
