//! URL matcher
use vstd::prelude::*;

verus! {

/// Supported url types
#[derive(Debug, Clone, Copy, PartialEq, Eq, Structural, Hash)]
pub enum UrlType {
    /// Youtube audio
    YoutubeAudio,
    /// Youtube video
    YoutubeVideo,
    /// Instagram reel
    InstaReel,
    /// Tiktok
    Tiktok,
    /// Webm
    Webm,
}

impl UrlType {
    /// Whether a download of this type is a video
    pub open spec fn spec_is_video(self) -> bool {
        !(self is YoutubeAudio)
    }

    /// The container that `yt-dlp` is asked for
    pub open spec fn spec_yt_dlp_format(self) -> Seq<char> {
        if self is YoutubeAudio {
            "mp3"@
        } else {
            "mp4"@
        }
    }

    /// The name shown to users
    pub open spec fn spec_display_name(self) -> Seq<char> {
        match self {
            UrlType::YoutubeAudio => "Youtube audio"@,
            UrlType::YoutubeVideo => "Youtube video"@,
            UrlType::InstaReel => "Instagram reel"@,
            UrlType::Tiktok => "Tiktok"@,
            UrlType::Webm => "webm"@,
        }
    }

    /// Check if the [`UrlType`] is a video
    pub fn is_video(&self) -> (r: bool)
        ensures
            r == self.spec_is_video(),
    {
        match self {
            UrlType::YoutubeAudio => false,
            UrlType::YoutubeVideo | UrlType::InstaReel | UrlType::Tiktok | UrlType::Webm => true,
        }
    }

    /// Argument for `yt-dlp` `-t`: `mp4` for a video, `mp3` for an audio
    pub fn yt_dlp_format(&self) -> (r: &'static str)
        ensures
            r@ == self.spec_yt_dlp_format(),
            r@ == (if self.spec_is_video() {
                "mp4"@
            } else {
                "mp3"@
            }),
    {
        match self {
            UrlType::YoutubeAudio => "mp3",
            UrlType::YoutubeVideo | UrlType::InstaReel | UrlType::Tiktok | UrlType::Webm => "mp4",
        }
    }

    /// The name shown to users (what `Display` writes)
    pub fn display_name(&self) -> (r: String)
        ensures
            r@ == self.spec_display_name(),
    {
        let s = match self {
            UrlType::YoutubeAudio => "Youtube audio",
            UrlType::YoutubeVideo => "Youtube video",
            UrlType::InstaReel => "Instagram reel",
            UrlType::Tiktok => "Tiktok",
            UrlType::Webm => "webm",
        };
        String::from_str(s)
    }
}

/// A download is asked of `yt-dlp` in a video container exactly when its type
/// is a video, and as an `mp3` audio otherwise; the two containers differ
pub proof fn lemma_format_follows_kind(t: UrlType)
    ensures
        t.spec_is_video() ==> t.spec_yt_dlp_format() == "mp4"@,
        !t.spec_is_video() ==> t.spec_yt_dlp_format() == "mp3"@,
        t.spec_yt_dlp_format() == "mp4"@ <==> t.spec_is_video(),
{
    reveal_strlit("mp4");
    reveal_strlit("mp3");
    assert("mp4"@[2] != "mp3"@[2]);
}

/// The pattern that recognises URLs of a type
pub open spec fn url_pattern(t: UrlType) -> Seq<char> {
    match t {
        UrlType::YoutubeAudio => r"^((?:https?:)?//)?((?:www|m)\.)?((?:youtube\.com|youtu.be))(/(?:[\w\-]+\?v=|embed/|v/)?)([\w\-]+)(\S+)?$"@,
        UrlType::YoutubeVideo => r#"^((video )((?:https?:)?//)?((?:www|m)\.)?((?:youtube\.com|youtu.be))(/(?:[\w\-]+\?v=|embed/|v/)?)([\w\-]+)(\S+)?$)|(((?:https?:)?//)?((?:www|m)\.)?((?:youtube\.com|youtu.be))(/(?:[\w\-]+\?v=|embed/|v/)?)([\w\-]+)(\S+)?( video)$)"#@,
        UrlType::Tiktok => r#"https://(vt\.|m\.|www\.|)tiktok\.com/((@[a-zA-Z0-9_]*/video/[a-zA-Z0-9_\?=&]*)|([a-zA-Z0-9_]*))"#@,
        UrlType::Webm => r#"(?:http)(?:.+/)(.+)(.webm)$"#@,
        UrlType::InstaReel => r#"^((?:https?:)?//)?((?:www|m)\.)?((?:instagram\.com)/reel/)"#@,
    }
}

/// The optional scheme of a link: `http://`, `https://`, `//` or nothing
pub open spec fn scheme_part() -> Seq<char> {
    r"((?:https?:)?//)?"@
}

/// The optional subdomain of a link: `www.`, `m.` or nothing
pub open spec fn subdomain_part() -> Seq<char> {
    r"((?:www|m)\.)?"@
}

/// The Youtube host (`youtube.com` or `youtu.be`), the path up to the video
/// id, the id, and whatever follows it up to a space
pub open spec fn youtube_path_part() -> Seq<char> {
    r"((?:youtube\.com|youtu.be))(/(?:[\w\-]+\?v=|embed/|v/)?)([\w\-]+)(\S+)?"@
}

/// A Youtube link: scheme, subdomain, then the Youtube host and path
pub open spec fn youtube_link_part() -> Seq<char> {
    scheme_part() + subdomain_part() + youtube_path_part()
}

/// How the patterns are built. A Youtube audio request is a whole message
/// that is a Youtube link, which may start with `www.` or `m.` after its
/// scheme. A Youtube video request is the same link with `video ` before it
/// or ` video` after it. Instagram reel links take the same optional scheme
/// and the same optional `www.` or `m.` subdomain as Youtube links. A Tiktok
/// link is an `https://` link on `tiktok.com` with a `vt.`, `m.`, `www.` or
/// no subdomain; a webm link is an `http` link whose path ends in `.webm`.
pub proof fn lemma_pattern_structure()
    ensures
        url_pattern(UrlType::YoutubeAudio) == "^"@ + youtube_link_part() + "$"@,
        url_pattern(UrlType::YoutubeVideo) == "^((video )"@ + youtube_link_part() + "$)|("@
            + youtube_link_part() + "( video)$)"@,
        url_pattern(UrlType::InstaReel) == "^"@ + scheme_part() + subdomain_part()
            + r"((?:instagram\.com)/reel/)"@,
        url_pattern(UrlType::Tiktok) == "https://"@ + r"(vt\.|m\.|www\.|)"@ + r"tiktok\.com/"@
            + r"((@[a-zA-Z0-9_]*/video/[a-zA-Z0-9_\?=&]*)|([a-zA-Z0-9_]*))"@,
        url_pattern(UrlType::Webm) == r"(?:http)(?:.+/)(.+)"@ + r"(.webm)$"@,
{
    reveal_strlit(r"^((?:https?:)?//)?((?:www|m)\.)?((?:youtube\.com|youtu.be))(/(?:[\w\-]+\?v=|embed/|v/)?)([\w\-]+)(\S+)?$");
    reveal_strlit(r#"^((video )((?:https?:)?//)?((?:www|m)\.)?((?:youtube\.com|youtu.be))(/(?:[\w\-]+\?v=|embed/|v/)?)([\w\-]+)(\S+)?$)|(((?:https?:)?//)?((?:www|m)\.)?((?:youtube\.com|youtu.be))(/(?:[\w\-]+\?v=|embed/|v/)?)([\w\-]+)(\S+)?( video)$)"#);
    reveal_strlit(r#"^((?:https?:)?//)?((?:www|m)\.)?((?:instagram\.com)/reel/)"#);
    reveal_strlit(r"((?:https?:)?//)?");
    reveal_strlit(r"((?:www|m)\.)?");
    reveal_strlit(r"((?:youtube\.com|youtu.be))(/(?:[\w\-]+\?v=|embed/|v/)?)([\w\-]+)(\S+)?");
    reveal_strlit(r"((?:instagram\.com)/reel/)");
    reveal_strlit("^");
    reveal_strlit("$");
    reveal_strlit("^((video )");
    reveal_strlit("$)|(");
    reveal_strlit("( video)$)");
    reveal_strlit(r#"https://(vt\.|m\.|www\.|)tiktok\.com/((@[a-zA-Z0-9_]*/video/[a-zA-Z0-9_\?=&]*)|([a-zA-Z0-9_]*))"#);
    reveal_strlit("https://");
    reveal_strlit(r"(vt\.|m\.|www\.|)");
    reveal_strlit(r"tiktok\.com/");
    reveal_strlit(r"((@[a-zA-Z0-9_]*/video/[a-zA-Z0-9_\?=&]*)|([a-zA-Z0-9_]*))");
    reveal_strlit(r#"(?:http)(?:.+/)(.+)(.webm)$"#);
    reveal_strlit(r"(?:http)(?:.+/)(.+)");
    reveal_strlit(r"(.webm)$");
    assert(url_pattern(UrlType::YoutubeAudio) =~= "^"@ + youtube_link_part() + "$"@);
    assert(url_pattern(UrlType::YoutubeVideo) =~= "^((video )"@ + youtube_link_part() + "$)|("@
        + youtube_link_part() + "( video)$)"@);
    assert(url_pattern(UrlType::InstaReel) =~= "^"@ + scheme_part() + subdomain_part()
        + r"((?:instagram\.com)/reel/)"@);
    assert(url_pattern(UrlType::Tiktok) =~= "https://"@ + r"(vt\.|m\.|www\.|)"@
        + r"tiktok\.com/"@ + r"((@[a-zA-Z0-9_]*/video/[a-zA-Z0-9_\?=&]*)|([a-zA-Z0-9_]*))"@);
    assert(url_pattern(UrlType::Webm) =~= r"(?:http)(?:.+/)(.+)"@ + r"(.webm)$"@);
}

/// The pattern that recognises URLs of a type
pub fn url_pattern_text(t: UrlType) -> (r: &'static str)
    ensures
        r@ == url_pattern(t),
{
    match t {
        UrlType::YoutubeAudio => r"^((?:https?:)?//)?((?:www|m)\.)?((?:youtube\.com|youtu.be))(/(?:[\w\-]+\?v=|embed/|v/)?)([\w\-]+)(\S+)?$",
        UrlType::YoutubeVideo => r#"^((video )((?:https?:)?//)?((?:www|m)\.)?((?:youtube\.com|youtu.be))(/(?:[\w\-]+\?v=|embed/|v/)?)([\w\-]+)(\S+)?$)|(((?:https?:)?//)?((?:www|m)\.)?((?:youtube\.com|youtu.be))(/(?:[\w\-]+\?v=|embed/|v/)?)([\w\-]+)(\S+)?( video)$)"#,
        UrlType::Tiktok => r#"https://(vt\.|m\.|www\.|)tiktok\.com/((@[a-zA-Z0-9_]*/video/[a-zA-Z0-9_\?=&]*)|([a-zA-Z0-9_]*))"#,
        UrlType::Webm => r#"(?:http)(?:.+/)(.+)(.webm)$"#,
        UrlType::InstaReel => r#"^((?:https?:)?//)?((?:www|m)\.)?((?:instagram\.com)/reel/)"#,
    }
}

/// The order in which the checker tries the types
pub open spec fn checked_types() -> Seq<UrlType> {
    seq![
        UrlType::YoutubeAudio,
        UrlType::YoutubeVideo,
        UrlType::Tiktok,
        UrlType::Webm,
        UrlType::InstaReel,
    ]
}

/// `regex::Regex`, carried as an opaque value
#[verifier::external_type_specification]
#[verifier::external_body]
pub struct ExRegex(regex::Regex);

/// `regex::Error`, the refusal of a pattern, carried as an opaque value
#[verifier::external_type_specification]
#[verifier::external_body]
pub struct ExRegexError(regex::Error);

/// Whether `regex::Regex::new` accepts a pattern
pub uninterp spec fn regex_compiles(pattern: Seq<char>) -> bool;

/// Whether the regex compiled from `pattern` matches somewhere in `haystack`
pub uninterp spec fn regex_is_match(pattern: Seq<char>, haystack: Seq<char>) -> bool;

/// A compiled pattern together with its source and the type it recognises.
/// Its fields are private: the only way to make one is [`UrlPattern::compile`],
/// so `regex` is always the compiled form of `pattern`.
pub struct UrlPattern {
    kind: UrlType,
    pattern: String,
    regex: regex::Regex,
}

impl UrlPattern {
    /// The type this pattern recognises
    pub closed spec fn kind_of(&self) -> UrlType {
        self.kind
    }

    /// The source text of the pattern
    pub closed spec fn source(&self) -> Seq<char> {
        self.pattern@
    }

    /// Compiles `pattern` with `regex::Regex::new`. The contract claims that the
    /// call succeeds exactly when `regex_compiles` holds of the pattern (a
    /// property of the pattern alone: its syntax and the default size limit),
    /// and that the kind and source are kept as given.
    #[verifier::external_body]
    fn compile(kind: UrlType, pattern: String) -> (r: Result<UrlPattern, regex::Error>)
        ensures
            r is Ok <==> regex_compiles(pattern@),
            r matches Ok(p) ==> p.kind_of() == kind && p.source() == pattern@,
    {
        match regex::Regex::new(&pattern) {
            Ok(regex) => Ok(UrlPattern { kind, pattern, regex }),
            Err(e) => Err(e),
        }
    }

    /// Calls `regex::Regex::is_match` on the compiled pattern. The contract
    /// claims that the answer depends only on the pattern's source and the
    /// haystack, and names it `regex_is_match`.
    #[verifier::external_body]
    fn is_match(&self, haystack: &str) -> (r: bool)
        ensures
            r == regex_is_match(self.source(), haystack@),
    {
        self.regex.is_match(haystack)
    }
}

/// The first type in `kinds` whose pattern matches `input`
pub open spec fn first_match(kinds: Seq<UrlType>, input: Seq<char>) -> Option<UrlType>
    decreases kinds.len(),
{
    if kinds.len() == 0 {
        None
    } else if regex_is_match(url_pattern(kinds[0]), input) {
        Some(kinds[0])
    } else {
        first_match(kinds.drop_first(), input)
    }
}

/// The types of `kinds` whose patterns compile, in the same order
pub open spec fn compiled_types(kinds: Seq<UrlType>) -> Seq<UrlType>
    decreases kinds.len(),
{
    if kinds.len() == 0 {
        Seq::empty()
    } else if regex_compiles(url_pattern(kinds.last())) {
        compiled_types(kinds.drop_last()).push(kinds.last())
    } else {
        compiled_types(kinds.drop_last())
    }
}

/// Url checker helper: the compiled pattern of each supported type
pub struct UrlChecker {
    patterns: Vec<UrlPattern>,
}

impl View for UrlChecker {
    type V = Seq<UrlType>;

    /// The types the checker tries, in order
    closed spec fn view(&self) -> Seq<UrlType> {
        self.patterns@.map_values(|p: UrlPattern| p.kind_of())
    }
}

impl UrlChecker {
    /// Each pattern is the one of its type
    #[verifier::type_invariant]
    closed spec fn well_formed(&self) -> bool {
        forall|i: int|
            0 <= i < self.patterns@.len() ==> #[trigger] self.patterns@[i].source() == url_pattern(
                self.patterns@[i].kind_of(),
            )
    }

    /// Check url type: the first type (in the checker's order) whose pattern
    /// matches anywhere in `input`
    pub fn check(&self, input: &str) -> (r: Option<UrlType>)
        ensures
            r == first_match(self@, input@),
    {
        proof {
            use_type_invariant(self);
        }
        let n = self.patterns.len();
        let mut results: Vec<(UrlType, bool)> = Vec::new();
        let mut i: usize = 0;
        while i < n
            invariant
                n == self.patterns@.len(),
                i <= n,
                forall|j: int|
                    0 <= j < self.patterns@.len() ==> #[trigger] self.patterns@[j].source()
                        == url_pattern(self.patterns@[j].kind_of()),
                results@ == match_results(self@.take(i as int), input@),
            decreases n - i,
        {
            let p = &self.patterns[i];
            let matched = p.is_match(input);
            results.push((p.kind, matched));
            assert(self@.take(i + 1) =~= self@.take(i as int).push(p.kind_of()));
            assert(results@ =~= match_results(self@.take(i + 1), input@));
            i = i + 1;
        }
        proof {
            assert(self@.take(n as int) =~= self@);
            lemma_first_true_matches(self@, input@);
        }
        first_matched(&results)
    }
}

/// Each type paired with whether its pattern matches `input`
pub open spec fn match_results(kinds: Seq<UrlType>, input: Seq<char>) -> Seq<(UrlType, bool)> {
    kinds.map_values(|k: UrlType| (k, regex_is_match(url_pattern(k), input)))
}

/// The first type whose result holds
pub open spec fn first_true(results: Seq<(UrlType, bool)>) -> Option<UrlType>
    decreases results.len(),
{
    if results.len() == 0 {
        None
    } else if results[0].1 {
        Some(results[0].0)
    } else {
        first_true(results.drop_first())
    }
}

/// The first type whose match result holds
pub fn first_matched(results: &Vec<(UrlType, bool)>) -> (r: Option<UrlType>)
    ensures
        r == first_true(results@),
{
    let mut i: usize = 0;
    proof {
        assert(results@.skip(0) =~= results@);
    }
    while i < results.len()
        invariant
            i <= results@.len(),
            first_true(results@) == first_true(results@.skip(i as int)),
        decreases results@.len() - i,
    {
        let (kind, matched) = results[i];
        if matched {
            return Some(kind);
        }
        assert(results@.skip(i as int).drop_first() =~= results@.skip(i + 1));
        i = i + 1;
    }
    None
}

/// Picking the first matching type from the results is picking the first
/// type whose pattern matches
proof fn lemma_first_true_matches(kinds: Seq<UrlType>, input: Seq<char>)
    ensures
        first_true(match_results(kinds, input)) == first_match(kinds, input),
    decreases kinds.len(),
{
    if kinds.len() > 0 {
        assert(match_results(kinds, input).drop_first() =~= match_results(kinds.drop_first(), input));
        lemma_first_true_matches(kinds.drop_first(), input);
    }
}

impl Default for UrlChecker {
    /// Compiles the pattern of each supported type; a type whose pattern
    /// does not compile is left out
    fn default() -> (r: Self)
        ensures
            r@ == compiled_types(checked_types()),
    {
        let kinds = vec![
            UrlType::YoutubeAudio,
            UrlType::YoutubeVideo,
            UrlType::Tiktok,
            UrlType::Webm,
            UrlType::InstaReel,
        ];
        assert(kinds@ =~= checked_types());
        let mut patterns: Vec<UrlPattern> = Vec::new();
        let mut i: usize = 0;
        while i < kinds.len()
            invariant
                i <= kinds@.len(),
                kinds@ == checked_types(),
                patterns@.map_values(|p: UrlPattern| p.kind_of()) == compiled_types(
                    kinds@.take(i as int),
                ),
                forall|j: int|
                    0 <= j < patterns@.len() ==> #[trigger] patterns@[j].source() == url_pattern(
                        patterns@[j].kind_of(),
                    ),
            decreases kinds@.len() - i,
        {
            let kind = kinds[i];
            let ghost before = patterns@;
            assert(kinds@.take(i + 1).drop_last() =~= kinds@.take(i as int));
            assert(kinds@.take(i + 1).last() == kind);
            match UrlPattern::compile(kind, String::from_str(url_pattern_text(kind))) {
                Ok(p) => {
                    patterns.push(p);
                    assert(patterns@.map_values(|p: UrlPattern| p.kind_of()) =~= before.map_values(
                        |p: UrlPattern| p.kind_of(),
                    ).push(kind));
                },
                Err(_) => {},
            }
            i = i + 1;
        }
        assert(kinds@.take(5) =~= kinds@);
        UrlChecker { patterns }
    }
}

/// The checker answers with a type only when it holds that type and the
/// type's pattern matches the text; it answers `None` exactly when none of
/// the patterns it holds matches
pub proof fn lemma_first_match_sound(kinds: Seq<UrlType>, input: Seq<char>)
    ensures
        first_match(kinds, input) matches Some(t) ==> kinds.contains(t) && regex_is_match(
            url_pattern(t),
            input,
        ),
        first_match(kinds, input) is None <==> forall|i: int|
            0 <= i < kinds.len() ==> !regex_is_match(url_pattern(#[trigger] kinds[i]), input),
    decreases kinds.len(),
{
    if kinds.len() > 0 {
        let rest = kinds.drop_first();
        lemma_first_match_sound(rest, input);
        if let Some(t) = first_match(kinds, input) {
            if !regex_is_match(url_pattern(kinds[0]), input) {
                let j = choose|j: int| 0 <= j < rest.len() && rest[j] == t;
                assert(kinds[j + 1] == t);
            }
        }
        if !regex_is_match(url_pattern(kinds[0]), input) && first_match(rest, input) is None {
            assert forall|i: int| 0 <= i < kinds.len() implies !regex_is_match(
                url_pattern(#[trigger] kinds[i]),
                input,
            ) by {
                if i > 0 {
                    assert(kinds[i] == rest[i - 1]);
                }
            }
        }
    }
}

/// Where every pattern of `kinds` compiles, all of `kinds` are kept
proof fn lemma_compiled_types_all(kinds: Seq<UrlType>)
    requires
        forall|i: int| 0 <= i < kinds.len() ==> regex_compiles(url_pattern(#[trigger] kinds[i])),
    ensures
        compiled_types(kinds) == kinds,
    decreases kinds.len(),
{
    if kinds.len() > 0 {
        let pre = kinds.drop_last();
        assert forall|i: int| 0 <= i < pre.len() implies regex_compiles(
            url_pattern(#[trigger] pre[i]),
        ) by {
            assert(pre[i] == kinds[i]);
        }
        lemma_compiled_types_all(pre);
        assert(regex_compiles(url_pattern(kinds[kinds.len() - 1])));
        assert(pre.push(kinds.last()) =~= kinds);
    }
}

/// Where every pattern compiles, the default checker tries all the supported
/// types, in order
pub proof fn lemma_all_types_checked()
    requires
        forall|t: UrlType| #[trigger] regex_compiles(url_pattern(t)),
    ensures
        compiled_types(checked_types()) == checked_types(),
{
    let s = checked_types();
    assert forall|i: int| 0 <= i < s.len() implies regex_compiles(url_pattern(#[trigger] s[i])) by {
        assert(regex_compiles(url_pattern(s[i])));
    }
    lemma_compiled_types_all(s);
}

} // verus!
