//! Video metadata: which stream describes the video, its size, and how its
//! thumbnail is scaled
use vstd::prelude::*;

verus! {

/// What the metadata says of one stream of a file
#[derive(Debug, PartialEq)]
pub struct StreamInfo {
    /// The kind of the stream (`video`, `audio`, ...)
    pub codec_type: Option<String>,
    /// Width in pixels
    pub width: Option<i64>,
    /// Height in pixels
    pub height: Option<i64>,
}

/// Why the metadata of a video is unusable
#[derive(Debug, Clone, Copy, PartialEq, Eq, Structural)]
pub enum MetaError {
    /// Unknown width
    Width,
    /// Width 0
    WidthZero,
    /// Unknown height
    Height,
    /// Height 0
    HeightZero,
}

/// The stream is a video
pub open spec fn is_video_stream(s: StreamInfo) -> bool {
    s.codec_type matches Some(t) && t@ == "video"@
}

/// The index of the first video stream
pub fn video_stream(streams: &Vec<StreamInfo>) -> (r: Option<usize>)
    ensures
        r matches Some(i) ==> i < streams@.len() && is_video_stream(streams@[i as int]) && forall|
            k: int,
        |
            0 <= k < i ==> !is_video_stream(#[trigger] streams@[k]),
        r is None ==> forall|k: int|
            0 <= k < streams@.len() ==> !is_video_stream(#[trigger] streams@[k]),
{
    let video = String::from_str("video");
    let mut i: usize = 0;
    while i < streams.len()
        invariant
            i <= streams@.len(),
            video@ == "video"@,
            forall|k: int| 0 <= k < i ==> !is_video_stream(#[trigger] streams@[k]),
        decreases streams@.len() - i,
    {
        match &streams[i].codec_type {
            Some(t) => {
                if *t == video {
                    return Some(i);
                }
            },
            None => {},
        }
        i = i + 1;
    }
    None
}

/// The size of the video: each dimension must be known, and, read as a
/// `u32`, be more than 0. The width is checked first.
pub open spec fn spec_video_dimensions(width: Option<i64>, height: Option<i64>) -> Result<
    (u32, u32),
    MetaError,
> {
    match (width, height) {
        (None, _) => Err(MetaError::Width),
        (Some(_), None) => Err(MetaError::Height),
        (Some(w), Some(h)) => if w as u32 == 0 {
            Err(MetaError::WidthZero)
        } else if h as u32 == 0 {
            Err(MetaError::HeightZero)
        } else {
            Ok((w as u32, h as u32))
        },
    }
}

/// The size of the video, from the width and height of its stream
pub fn video_dimensions(width: Option<i64>, height: Option<i64>) -> (r: Result<(u32, u32), MetaError>)
    ensures
        r == spec_video_dimensions(width, height),
{
    let w = match width {
        Some(w) => w as u32,
        None => return Err(MetaError::Width),
    };
    let h = match height {
        Some(h) => h as u32,
        None => return Err(MetaError::Height),
    };
    if w == 0 {
        return Err(MetaError::WidthZero);
    }
    if h == 0 {
        return Err(MetaError::HeightZero);
    }
    Ok((w, h))
}

/// The `ffmpeg` filter that scales a thumbnail: the longer side becomes 320
pub fn thumbnail_filter(width: u32, height: u32) -> (r: &'static str)
    ensures
        r@ == (if width > height {
            "scale=320:-1"@
        } else {
            "scale=-1:320"@
        }),
{
    if width > height {
        "scale=320:-1"
    } else {
        "scale=-1:320"
    }
}

} // verus!
