//! Download info from `yt-dlp`.
//!
//! Bitrates are `f64` numbers in `yt-dlp`'s output. Here each one stands as
//! its rank: a `u64` that orders as the number does (equal numbers, `0.0`
//! and `-0.0` among them, have equal ranks). The rank of `0.0` is
//! [`ZERO_RATE`].
use std::cmp::Ordering;
use vstd::prelude::*;
use vstd::std_specs::cmp::PartialOrdSpecImpl;
use vstd::std_specs::convert::FromSpecImpl;

use crate::text::{parse_u32, spec_parse_u32};

verus! {

/// The rank of the bitrate `0.0`
pub const ZERO_RATE: u64 = 0x8000_0000_0000_0000u64;

/// Download info from `yt-dlp`
#[derive(Debug)]
pub struct DlpInfo {
    /// Download id
    pub id: String,
    /// List of available formats
    pub formats: Vec<FormatInfo>,
}

/// Raw format info, as `yt-dlp` describes a format
#[derive(Debug, PartialEq)]
pub struct FormatInfoRaw {
    /// Format note (such as `720p`)
    pub format_note: String,
    /// Format id
    pub format_id: String,
    /// Resolution
    pub resolution: String,
    /// Video width
    pub width: Option<u32>,
    /// Video height
    pub height: Option<u32>,
    /// Approximate file size
    pub filesize_approx: Option<u64>,
    /// Rank of the audio bitrate
    pub abr: Option<u64>,
    /// Rank of the video bitrate
    pub vbr: Option<u64>,
    /// Audio codec, `none` where there is no audio
    pub acodec: String,
    /// Video codec, `none` where there is no video
    pub vcodec: String,
}

/// Format
#[derive(Debug, PartialEq)]
pub enum FormatInfo {
    /// Catchall raw format
    Unknown(FormatInfoRaw),
    /// Audio
    Audio(Audio),
    /// Video
    Video(Video),
}

/// Audio
#[derive(Debug, PartialEq)]
pub struct Audio {
    /// Format id
    pub id: u32,
    /// Rank of the audio bitrate
    pub bitrate: u64,
    /// File size
    pub size: u64,
    /// Format note
    pub note: String,
}

/// Video
#[derive(Debug, PartialEq)]
pub struct Video {
    /// Format id
    pub id: u32,
    /// Format note
    pub note: String,
    /// Video width
    pub width: u32,
    /// Video height
    pub height: u32,
    /// Approximate video size
    pub size: u64,
    /// Rank of the video bitrate
    pub bitrate: u64,
}

/// `o.unwrap_or_default()`
pub open spec fn or_zero<T: Copy>(o: Option<T>, zero: T) -> T {
    match o {
        Some(v) => v,
        None => zero,
    }
}

/// How a raw format is classified: one whose id is no `u32`, or that has
/// neither or both of audio and video, stays unknown; one without audio is
/// a video; one without video is an audio. Missing numbers become zero. A
/// video's bitrate is `vbr`, an audio's is `abr`.
pub open spec fn spec_from_raw(value: FormatInfoRaw) -> FormatInfo {
    match spec_parse_u32(value.format_id@) {
        Err(_) => FormatInfo::Unknown(value),
        Ok(id) => {
            let no_audio = value.acodec@ == "none"@;
            let no_video = value.vcodec@ == "none"@;
            if no_audio && no_video {
                FormatInfo::Unknown(value)
            } else if no_audio {
                FormatInfo::Video(
                    Video {
                        id,
                        width: or_zero(value.width, 0u32),
                        height: or_zero(value.height, 0u32),
                        note: value.format_note,
                        size: or_zero(value.filesize_approx, 0u64),
                        bitrate: or_zero(value.vbr, ZERO_RATE),
                    },
                )
            } else if no_video {
                FormatInfo::Audio(
                    Audio {
                        id,
                        note: value.format_note,
                        bitrate: or_zero(value.abr, ZERO_RATE),
                        size: or_zero(value.filesize_approx, 0u64),
                    },
                )
            } else {
                FormatInfo::Unknown(value)
            }
        },
    }
}

/// `o.unwrap_or_default()` for a `u32`
fn u32_or_zero(o: Option<u32>) -> (r: u32)
    ensures
        r == or_zero(o, 0u32),
{
    match o {
        Some(v) => v,
        None => 0,
    }
}

/// `o.unwrap_or(zero)` for a `u64`
fn u64_or(o: Option<u64>, zero: u64) -> (r: u64)
    ensures
        r == or_zero(o, zero),
{
    match o {
        Some(v) => v,
        None => zero,
    }
}

impl FormatInfo {
    /// Classifies a raw format (what `From<FormatInfoRaw>` does)
    pub fn from_raw(value: FormatInfoRaw) -> (r: FormatInfo)
        ensures
            r == spec_from_raw(value),
    {
        let id = match parse_u32(value.format_id.as_str()) {
            Ok(id) => id,
            Err(_) => return FormatInfo::Unknown(value),
        };
        let none = String::from_str("none");
        let no_audio = value.acodec == none;
        let no_video = value.vcodec == none;
        if no_audio && no_video {
            FormatInfo::Unknown(value)
        } else if no_audio {
            FormatInfo::Video(
                Video {
                    id,
                    width: u32_or_zero(value.width),
                    height: u32_or_zero(value.height),
                    note: value.format_note,
                    size: u64_or(value.filesize_approx, 0),
                    bitrate: u64_or(value.vbr, ZERO_RATE),
                },
            )
        } else if no_video {
            FormatInfo::Audio(
                Audio {
                    id,
                    note: value.format_note,
                    bitrate: u64_or(value.abr, ZERO_RATE),
                    size: u64_or(value.filesize_approx, 0),
                },
            )
        } else {
            FormatInfo::Unknown(value)
        }
    }
}

impl From<FormatInfoRaw> for FormatInfo {
    fn from(value: FormatInfoRaw) -> (r: Self) {
        FormatInfo::from_raw(value)
    }
}

impl FromSpecImpl<FormatInfoRaw> for FormatInfo {
    open spec fn obeys_from_spec() -> bool {
        true
    }

    open spec fn from_spec(v: FormatInfoRaw) -> Self {
        spec_from_raw(v)
    }
}

/// How two audios compare: by bitrate, then by size; two audios equal in
/// both are not ordered
pub open spec fn audio_order(a: &Audio, b: &Audio) -> Option<Ordering> {
    if a.bitrate < b.bitrate {
        Some(Ordering::Less)
    } else if a.bitrate > b.bitrate {
        Some(Ordering::Greater)
    } else if a.size < b.size {
        Some(Ordering::Less)
    } else if a.size > b.size {
        Some(Ordering::Greater)
    } else {
        None
    }
}

/// `a` is greater than `b`
pub open spec fn audio_beats(a: &Audio, b: &Audio) -> bool {
    audio_order(a, b) == Some(Ordering::Greater)
}

impl PartialOrd for Audio {
    fn partial_cmp(&self, other: &Self) -> (r: Option<Ordering>) {
        if self.bitrate < other.bitrate {
            Some(Ordering::Less)
        } else if self.bitrate > other.bitrate {
            Some(Ordering::Greater)
        } else if self.size < other.size {
            Some(Ordering::Less)
        } else if self.size > other.size {
            Some(Ordering::Greater)
        } else {
            None
        }
    }
}

impl PartialOrdSpecImpl for Audio {
    open spec fn obeys_partial_cmp_spec() -> bool {
        true
    }

    open spec fn partial_cmp_spec(&self, other: &Self) -> Option<Ordering> {
        audio_order(self, other)
    }
}

/// Audio comparison is antisymmetric: `a` is greater than `b` exactly when
/// `b` is less than `a`, and two audios are unordered both ways or neither
pub proof fn lemma_audio_order_antisymmetric(a: Audio, b: Audio)
    ensures
        (audio_order(&a, &b) == Some(Ordering::Greater)) <==> (audio_order(&b, &a) == Some(
            Ordering::Less,
        )),
        (audio_order(&a, &b) is None) <==> (audio_order(&b, &a) is None),
        audio_order(&a, &b) != Some(Ordering::Equal),
{
}

/// Audios are ordered by bitrate first: of two audios with different
/// bitrates, the one with the higher bitrate is greater, whatever their
/// sizes. Only audios of equal bitrate are ordered by size, and two audios
/// equal in both are unordered.
pub proof fn lemma_audio_order_by_bitrate(a: Audio, b: Audio)
    ensures
        a.bitrate > b.bitrate ==> audio_order(&a, &b) == Some(Ordering::Greater),
        a.bitrate < b.bitrate ==> audio_order(&a, &b) == Some(Ordering::Less),
        a.bitrate == b.bitrate && a.size > b.size ==> audio_order(&a, &b) == Some(
            Ordering::Greater,
        ),
        a.bitrate == b.bitrate && a.size < b.size ==> audio_order(&a, &b) == Some(Ordering::Less),
        a.bitrate == b.bitrate && a.size == b.size ==> audio_order(&a, &b) is None,
{
}

/// Which kind a raw format becomes. A format whose id is a number is a
/// video when it has no audio but has video, an audio when it has audio but
/// no video, and otherwise stays unknown; so does a format whose id is not a
/// number. An unknown format keeps the raw value as it came. A video or
/// audio keeps the id, the note and the approximate size, a video its
/// dimensions and video bitrate, an audio its audio bitrate; a missing
/// number is zero.
pub proof fn lemma_from_raw_kinds(value: FormatInfoRaw)
    ensures
        spec_from_raw(value) is Video <==> spec_parse_u32(value.format_id@) is Ok
            && value.acodec@ == "none"@ && value.vcodec@ != "none"@,
        spec_from_raw(value) is Audio <==> spec_parse_u32(value.format_id@) is Ok
            && value.acodec@ != "none"@ && value.vcodec@ == "none"@,
        spec_from_raw(value) is Unknown ==> spec_from_raw(value) == FormatInfo::Unknown(value),
        spec_from_raw(value) matches FormatInfo::Video(v) ==> {
            &&& spec_parse_u32(value.format_id@) == Ok::<u32, crate::text::IntErrorKind>(v.id)
            &&& v.note == value.format_note
            &&& v.width == or_zero(value.width, 0u32)
            &&& v.height == or_zero(value.height, 0u32)
            &&& v.size == or_zero(value.filesize_approx, 0u64)
            &&& v.bitrate == or_zero(value.vbr, ZERO_RATE)
        },
        spec_from_raw(value) matches FormatInfo::Audio(a) ==> {
            &&& spec_parse_u32(value.format_id@) == Ok::<u32, crate::text::IntErrorKind>(a.id)
            &&& a.note == value.format_note
            &&& a.size == or_zero(value.filesize_approx, 0u64)
            &&& a.bitrate == or_zero(value.abr, ZERO_RATE)
        },
{
}

/// The codecs count only by whether they are `none`: two raw formats that
/// differ in nothing else, and whose codecs are `none` alike, become the
/// same video or the same audio, or both stay unknown
pub proof fn lemma_from_raw_codec_names(v1: FormatInfoRaw, v2: FormatInfoRaw)
    requires
        v1.format_id@ == v2.format_id@,
        v1.format_note == v2.format_note,
        v1.width == v2.width,
        v1.height == v2.height,
        v1.filesize_approx == v2.filesize_approx,
        v1.abr == v2.abr,
        v1.vbr == v2.vbr,
        (v1.acodec@ == "none"@) == (v2.acodec@ == "none"@),
        (v1.vcodec@ == "none"@) == (v2.vcodec@ == "none"@),
    ensures
        spec_from_raw(v1) is Unknown <==> spec_from_raw(v2) is Unknown,
        !(spec_from_raw(v1) is Unknown) ==> spec_from_raw(v1) == spec_from_raw(v2),
{
}

} // verus!
