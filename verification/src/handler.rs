//! Request handling decisions: what a message asks for, and where a file
//! sent by the user is taken from
use vstd::prelude::*;

use crate::text::str_eq;
use crate::url::{first_match, UrlChecker, UrlType};

verus! {

/// 20Mb download size limit for non-local API calls
pub const SIZE_LIMIT: u32 = 20 * 1024 * 1024;

/// Where the file of an incoming video is taken from
#[derive(Debug, Clone, Copy, PartialEq, Eq, Structural)]
pub enum FileSource {
    /// A local API server keeps the file on this machine
    Local,
    /// The file is downloaded from Telegram
    Download,
    /// The file is over the size limit: holds its size
    TooLarge(u32),
}

/// Where a file of `size` bytes is taken from: a local API server has it
/// at hand; otherwise it is downloaded unless it exceeds [`SIZE_LIMIT`]
pub fn file_source(local_api: bool, size: u32) -> (r: FileSource)
    ensures
        r == (if local_api {
            FileSource::Local
        } else if size > SIZE_LIMIT {
            FileSource::TooLarge(size)
        } else {
            FileSource::Download
        }),
{
    if local_api {
        FileSource::Local
    } else if size > SIZE_LIMIT {
        FileSource::TooLarge(size)
    } else {
        FileSource::Download
    }
}

/// The URL to download: a Youtube video request written as `video <url>`
/// loses that prefix; any other text is the URL as it stands
pub open spec fn spec_request_url(text: Seq<char>, url_type: UrlType) -> Seq<char> {
    if url_type is YoutubeVideo && text.len() >= 6 && text.take(6) == "video "@ {
        text.skip(6)
    } else {
        text
    }
}

/// Whether `text` is a Youtube video request written as `video <url>`
pub open spec fn has_video_prefix(text: Seq<char>, url_type: UrlType) -> bool {
    url_type is YoutubeVideo && text.len() >= 6 && text.take(6) == "video "@
}

/// The URL to download for a message of type `url_type`: for a Youtube
/// video request written as `video <url>`, all of the text after the
/// `video ` prefix; otherwise the whole text
pub fn request_url(text: &str, url_type: UrlType) -> (r: String)
    ensures
        r@ == spec_request_url(text@, url_type),
        has_video_prefix(text@, url_type) ==> "video "@ + r@ == text@,
        !has_video_prefix(text@, url_type) ==> r@ == text@,
{
    proof {
        lemma_request_url_drops_only_prefix(text@, url_type);
    }
    let len = text.unicode_len();
    if let UrlType::YoutubeVideo = url_type {
        if len >= 6 && str_eq(text.substring_char(0, 6), "video ") {
            return String::from_str(text.substring_char(6, len));
        }
    }
    String::from_str(text)
}

/// Only the `video ` prefix of a Youtube video request is taken off: the
/// URL is the rest of the text, unchanged to its end, and with the prefix
/// put back it is the text again. Any other text is the URL as it stands.
pub proof fn lemma_request_url_drops_only_prefix(text: Seq<char>, url_type: UrlType)
    ensures
        has_video_prefix(text, url_type) ==> "video "@ + spec_request_url(text, url_type) == text,
        has_video_prefix(text, url_type) ==> spec_request_url(text, url_type).len() + 6
            == text.len(),
        !has_video_prefix(text, url_type) ==> spec_request_url(text, url_type) == text,
{
    if has_video_prefix(text, url_type) {
        assert(text.take(6) + text.skip(6) =~= text);
    }
}

/// What a message asks to download: its type and URL; `None` where no
/// pattern recognises it
pub fn recognise_request(checker: &UrlChecker, text: &str) -> (r: Option<(UrlType, String)>)
    ensures
        match first_match(checker@, text@) {
            None => r is None,
            Some(t) => r matches Some((t2, url)) && t2 == t && url@ == spec_request_url(text@, t),
        },
{
    match checker.check(text) {
        None => None,
        Some(t) => Some((t, request_url(text, t))),
    }
}

} // verus!
