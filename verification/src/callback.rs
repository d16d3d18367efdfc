//! Query callback parsing
use vstd::prelude::*;

use crate::downloader::Format;
use crate::text::{first_index_of, find_char, parse_u32, spec_parse_u32, str_eq, IntErrorKind};

verus! {

/// Error when parsing callback query
#[derive(Debug, PartialEq, Eq)]
pub enum QueryError {
    /// The query has no recognised shape; holds the whole query
    Malformed(String),
    /// The id after the type could not be read
    Parse {
        /// The type written before the id
        ty: String,
        /// Why the id could not be read
        e: IntErrorKind,
    },
}

/// What a [`QueryError`] says, over plain values
pub enum QueryErrorView {
    /// See [`QueryError::Malformed`]
    Malformed(Seq<char>),
    /// See [`QueryError::Parse`]
    Parse { ty: Seq<char>, e: IntErrorKind },
}

impl View for QueryError {
    type V = QueryErrorView;

    open spec fn view(&self) -> QueryErrorView {
        match self {
            QueryError::Malformed(s) => QueryErrorView::Malformed(s@),
            QueryError::Parse { ty, e } => QueryErrorView::Parse { ty: ty@, e: *e },
        }
    }
}

/// Parsed callback data
#[derive(Debug, Clone, Copy, PartialEq, Eq, Structural)]
pub enum Query {
    /// Selected format: audio
    FormatAudio {
        /// Format id
        id: u32,
    },
    /// Selected format: video
    FormatVideo {
        /// Format id
        id: u32,
    },
    /// Delete the keyboard message
    Close,
}

/// The text before the first `':'`, or all of it
pub open spec fn first_part(s: Seq<char>) -> Seq<char> {
    match first_index_of(s, ':') {
        Some(i) => s.take(i),
        None => s,
    }
}

/// How callback data is read. The parts are separated by `':'`. A first part
/// of `close` is a close request, whatever follows. Otherwise a second part
/// must exist and be a `u32`; the first part then names the format: `audio`
/// or `video`. Parts after the second are ignored.
pub open spec fn spec_parse_query(s: Seq<char>) -> Result<Query, QueryErrorView> {
    let ty = first_part(s);
    if ty == "close"@ {
        Ok(Query::Close)
    } else {
        match first_index_of(s, ':') {
            None => Err(QueryErrorView::Malformed(s)),
            Some(i) => match spec_parse_u32(first_part(s.skip(i + 1))) {
                Err(e) => Err(QueryErrorView::Parse { ty, e }),
                Ok(id) => if ty == "audio"@ {
                    Ok(Query::FormatAudio { id })
                } else if ty == "video"@ {
                    Ok(Query::FormatVideo { id })
                } else {
                    Err(QueryErrorView::Malformed(s))
                },
            },
        }
    }
}

/// The text before the first `':'` of `s`, and what follows that `':'`
fn split_once_colon(s: &str) -> (r: (&str, Option<&str>))
    ensures
        r.0@ == first_part(s@),
        r.1 is Some <==> first_index_of(s@, ':') is Some,
        r.1 matches Some(rest) ==> rest@ == s@.skip(first_index_of(s@, ':')->0 + 1),
{
    let len = s.unicode_len();
    match find_char(s, ':') {
        Some(i) => (s.substring_char(0, i), Some(s.substring_char(i + 1, len))),
        None => (s, None),
    }
}

impl Query {
    /// Reads callback data (what `FromStr` does)
    pub fn parse(s: &str) -> (r: Result<Query, QueryError>)
        ensures
            match r {
                Ok(q) => spec_parse_query(s@) == Ok::<Query, QueryErrorView>(q),
                Err(e) => spec_parse_query(s@) == Err::<Query, QueryErrorView>(e@),
            },
    {
        let (ty, rest) = split_once_colon(s);
        if str_eq(ty, "close") {
            return Ok(Query::Close);
        }
        let rest = match rest {
            Some(rest) => rest,
            None => return Err(QueryError::Malformed(String::from_str(s))),
        };
        let (id_text, _) = split_once_colon(rest);
        let id = match parse_u32(id_text) {
            Ok(id) => id,
            Err(e) => return Err(QueryError::Parse { ty: String::from_str(ty), e }),
        };
        if str_eq(ty, "audio") {
            Ok(Query::FormatAudio { id })
        } else if str_eq(ty, "video") {
            Ok(Query::FormatVideo { id })
        } else {
            Err(QueryError::Malformed(String::from_str(s)))
        }
    }

    /// The format a query selects; a close request selects none
    pub fn format(&self) -> (r: Option<Format>)
        ensures
            r == match *self {
                Query::FormatAudio { id } => Some(Format::Audio(id)),
                Query::FormatVideo { id } => Some(Format::Video(id)),
                Query::Close => None::<Format>,
            },
    {
        match self {
            Query::FormatAudio { id } => Some(Format::Audio(*id)),
            Query::FormatVideo { id } => Some(Format::Video(*id)),
            Query::Close => None,
        }
    }

    /// Whether the selected download is sent back as a video
    pub fn is_video(&self) -> (r: bool)
        ensures
            r == (*self is FormatVideo),
    {
        match self {
            Query::FormatVideo { .. } => true,
            _ => false,
        }
    }
}

impl std::str::FromStr for Query {
    type Err = QueryError;

    fn from_str(s: &str) -> (r: Result<Self, Self::Err>)
        ensures
            match r {
                Ok(q) => spec_parse_query(s@) == Ok::<Query, QueryErrorView>(q),
                Err(e) => spec_parse_query(s@) == Err::<Query, QueryErrorView>(e@),
            },
    {
        Query::parse(s)
    }
}

/// What to do when a keyboard button is pressed
#[derive(Debug, PartialEq)]
pub enum CallbackAction {
    /// Delete the keyboard message
    Close,
    /// The message with the URL is gone: delete the keyboard and ask the
    /// user to send the URL again
    SourceMissing,
    /// Download `url` in `format`, and send it back as a video where
    /// `as_video` holds (as an audio otherwise)
    Download { url: String, format: Format, as_video: bool },
}

/// The step taken for a pressed button: a close request closes, whatever
/// else is known; a format choice downloads the URL of the message the
/// keyboard answered, or, where that URL cannot be found, gives up
pub fn callback_action(query: Query, source_url: Option<String>) -> (r: CallbackAction)
    ensures
        r == match query {
            Query::Close => CallbackAction::Close,
            Query::FormatAudio { id } => match source_url {
                None => CallbackAction::SourceMissing,
                Some(url) => CallbackAction::Download {
                    url,
                    format: Format::Audio(id),
                    as_video: false,
                },
            },
            Query::FormatVideo { id } => match source_url {
                None => CallbackAction::SourceMissing,
                Some(url) => CallbackAction::Download {
                    url,
                    format: Format::Video(id),
                    as_video: true,
                },
            },
        },
{
    let format = match query.format() {
        None => return CallbackAction::Close,
        Some(format) => format,
    };
    match source_url {
        None => CallbackAction::SourceMissing,
        Some(url) => CallbackAction::Download { url, format, as_video: query.is_video() },
    }
}

} // verus!
