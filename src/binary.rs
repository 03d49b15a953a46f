//! Names of the external binaries and the choice among candidate paths.
use vstd::prelude::*;
use vstd::string::*;

verus! {

/// The external binaries the application runs.
#[derive(Debug, Clone, Copy, PartialEq, Eq, Structural)]
pub enum BinaryType {
    FFmpeg,
    FFprobe,
}

impl BinaryType {
    /// The environment variable that overrides this binary's location.
    pub fn env_var_name(&self) -> (r: &'static str)
        ensures
            r == (match *self {
                BinaryType::FFmpeg => "HONEYMELON_FFMPEG_PATH",
                BinaryType::FFprobe => "HONEYMELON_FFPROBE_PATH",
            }),
    {
        match self {
            BinaryType::FFmpeg => "HONEYMELON_FFMPEG_PATH",
            BinaryType::FFprobe => "HONEYMELON_FFPROBE_PATH",
        }
    }

    /// The binary's file name, also its name for a lookup on the system path.
    pub fn binary_name(&self) -> (r: &'static str)
        ensures
            r == (match *self {
                BinaryType::FFmpeg => "ffmpeg",
                BinaryType::FFprobe => "ffprobe",
            }),
    {
        match self {
            BinaryType::FFmpeg => "ffmpeg",
            BinaryType::FFprobe => "ffprobe",
        }
    }
}

/// Whether a path is absolute, as `Path::is_absolute` decides on this platform.
pub uninterp spec fn path_is_absolute(p: Seq<char>) -> bool;

/// Relies on `Path::is_absolute`.
#[verifier::external_body]
fn is_absolute_path(p: &str) -> (r: bool)
    ensures
        r == path_is_absolute(p@),
{
    std::path::Path::new(p).is_absolute()
}

/// Whether a path names a location in the file system (absolute, or with a
/// separator) rather than a bare command for a lookup on the system path.
pub open spec fn is_located(p: Seq<char>) -> bool {
    path_is_absolute(p) || p.contains('/') || p.contains('\\')
}

/// Whether `text` holds `/` or `\`.
pub fn has_path_separator(text: &str) -> (r: bool)
    ensures
        r == (text@.contains('/') || text@.contains('\\')),
{
    let v = crate::text::chars_of(text);
    let mut i: usize = 0;
    while i < v.len()
        invariant
            v@ == text@,
            i <= v@.len(),
            forall|k: int| 0 <= k < i ==> v@[k] != '/' && v@[k] != '\\',
        decreases v@.len() - i,
    {
        if v[i] == '/' || v[i] == '\\' {
            assert(v@[i as int] == v[i as int]);
            return true;
        }
        i = i + 1;
    }
    false
}

/// The index of the first usable candidate: a located path that exists, or a
/// bare command name, which is always usable.
pub open spec fn first_usable(candidates: Seq<Seq<char>>, exists: Seq<bool>, from: int) -> Option<int>
    decreases candidates.len() - from,
{
    if from < 0 || from >= candidates.len() {
        None
    } else if !is_located(candidates[from]) || exists[from] {
        Some(from)
    } else {
        first_usable(candidates, exists, from + 1)
    }
}

/// Picks the first usable candidate, where `exists[i]` tells whether the
/// `i`-th candidate exists in the file system.
pub fn select_ffmpeg_candidate(candidates: &[String], exists: &[bool]) -> (r: Option<String>)
    requires
        exists@.len() == candidates@.len(),
    ensures
        r is Some <==> first_usable(candidates@.map_values(|s: String| s@), exists@, 0) is Some,
        r matches Some(c) ==> c@ == candidates@[first_usable(candidates@.map_values(|s: String| s@), exists@, 0)->0]@,
{
    let ghost names = candidates@.map_values(|s: String| s@);
    let mut i: usize = 0;
    while i < candidates.len()
        invariant
            exists@.len() == candidates@.len(),
            names == candidates@.map_values(|s: String| s@),
            i <= candidates@.len(),
            first_usable(names, exists@, 0) == first_usable(names, exists@, i as int),
        decreases candidates@.len() - i,
    {
        let c = candidates[i].as_str();
        let located = is_absolute_path(c) || has_path_separator(c);
        assert(names[i as int] == candidates@[i as int]@);
        if !located || exists[i] {
            return Some(String::from_str(c));
        }
        i = i + 1;
    }
    None
}

} // verus!
